//! Settings of the render pipeline.
//!
//! The builder collects what the renderer chooses about its pipeline, and
//! [`RenderPipelineBuilder::build`] hands the choices out as one plain
//! description. Shader modules are the graphics device's own objects; the
//! builder only carries references to them, whatever their type `S` is.

use vstd::prelude::*;
use crate::mesh::{Vertex, VertexAttribute, VertexBufferLayout};

verus! {

/// How vertices are joined into primitives.
#[derive(Clone, Copy, Debug, PartialEq, Eq)]
pub enum PrimitiveTopology {
    PointList,
    LineList,
    LineStrip,
    TriangleList,
    TriangleStrip,
}

/// The winding of a front-facing triangle.
#[derive(Clone, Copy, Debug, PartialEq, Eq)]
pub enum FrontFace {
    Ccw,
    Cw,
}

/// A side of a triangle.
#[derive(Clone, Copy, Debug, PartialEq, Eq)]
pub enum Face {
    Front,
    Back,
}

/// How a polygon is filled.
#[derive(Clone, Copy, Debug, PartialEq, Eq)]
pub enum PolygonMode {
    Fill,
    Line,
    Point,
}

/// The depth test of a pipeline that has one: a fragment passes where it is
/// nearer than what the 32-bit depth buffer holds, and is then written
/// there.
#[derive(Clone, Copy, Debug, PartialEq, Eq)]
pub struct DepthStencilState {
    pub depth_bits: u32,
    pub depth_write_enabled: bool,
    pub pass_if_less: bool,
}

/// What a render pipeline is made from.
#[derive(Debug)]
pub struct RenderPipelineDescriptor<'a, S> {
    pub vertex_shader: &'a S,
    pub fragment_shader: &'a S,
    pub vertex_layout: VertexBufferLayout,
    pub topology: PrimitiveTopology,
    pub front_face: FrontFace,
    pub cull_mode: Option<Face>,
    pub polygon_mode: PolygonMode,
    pub depth_stencil: Option<DepthStencilState>,
    pub sample_count: u32,
}

/// Collects the settings of a render pipeline.
#[derive(Debug)]
pub struct RenderPipelineBuilder<'a, S> {
    pub vertex_shader: Option<&'a S>,
    pub fragment_shader: Option<&'a S>,
    pub use_depth_stencil: bool,
    pub topology: PrimitiveTopology,
    pub front_face: FrontFace,
    pub cull_mode: Option<Face>,
    pub polygon_mode: PolygonMode,
}

impl<'a, S> RenderPipelineBuilder<'a, S> {
    /// A builder with no shader chosen and no depth test, for filled
    /// triangle lists with clockwise front faces and no culling.
    pub fn new() -> (builder: Self)
        ensures
            builder.vertex_shader is None,
            builder.fragment_shader is None,
            !builder.use_depth_stencil,
            builder.topology == PrimitiveTopology::TriangleList,
            builder.front_face == FrontFace::Cw,
            builder.cull_mode is None,
            builder.polygon_mode == PolygonMode::Fill,
    {
        RenderPipelineBuilder {
            vertex_shader: None,
            fragment_shader: None,
            use_depth_stencil: false,
            topology: PrimitiveTopology::TriangleList,
            front_face: FrontFace::Cw,
            cull_mode: None,
            polygon_mode: PolygonMode::Fill,
        }
    }

    /// Chooses the vertex shader.
    pub fn vertex_shader(self, shader: &'a S) -> (builder: Self)
        ensures
            builder == (RenderPipelineBuilder { vertex_shader: Some(shader), ..self }),
    {
        let mut builder = self;
        builder.vertex_shader = Some(shader);
        builder
    }

    /// Chooses the fragment shader.
    pub fn fragment_shader(self, shader: &'a S) -> (builder: Self)
        ensures
            builder == (RenderPipelineBuilder { fragment_shader: Some(shader), ..self }),
    {
        let mut builder = self;
        builder.fragment_shader = Some(shader);
        builder
    }

    /// Switches the depth test on or off.
    pub fn depth_stencil(self, depth_stencil: bool) -> (builder: Self)
        ensures
            builder == (RenderPipelineBuilder { use_depth_stencil: depth_stencil, ..self }),
    {
        let mut builder = self;
        builder.use_depth_stencil = depth_stencil;
        builder
    }

    /// Chooses the primitive topology.
    pub fn topology(self, topology: PrimitiveTopology) -> (builder: Self)
        ensures
            builder == (RenderPipelineBuilder { topology, ..self }),
    {
        let mut builder = self;
        builder.topology = topology;
        builder
    }

    /// Chooses the winding of front faces.
    pub fn front_face(self, front_face: FrontFace) -> (builder: Self)
        ensures
            builder == (RenderPipelineBuilder { front_face, ..self }),
    {
        let mut builder = self;
        builder.front_face = front_face;
        builder
    }

    /// Culls the given side of every triangle.
    pub fn cull_mode(self, cull_mode: Face) -> (builder: Self)
        ensures
            builder == (RenderPipelineBuilder { cull_mode: Some(cull_mode), ..self }),
    {
        let mut builder = self;
        builder.cull_mode = Some(cull_mode);
        builder
    }

    /// Chooses how polygons are filled.
    pub fn polygon_mode(self, polygon_mode: PolygonMode) -> (builder: Self)
        ensures
            builder == (RenderPipelineBuilder { polygon_mode, ..self }),
    {
        let mut builder = self;
        builder.polygon_mode = polygon_mode;
        builder
    }

    /// The description of the pipeline that was asked for. Both shaders
    /// must have been chosen.
    ///
    /// The pipeline reads vertices in the layout of [`Vertex::desc`] and
    /// takes one sample a pixel. Where the depth test is on, it is the one
    /// that [`DepthStencilState`] describes, on 32 bits.
    pub fn build(&self) -> (descriptor: RenderPipelineDescriptor<'a, S>)
        requires
            self.vertex_shader is Some,
            self.fragment_shader is Some,
        ensures
            descriptor.vertex_shader == self.vertex_shader->Some_0,
            descriptor.fragment_shader == self.fragment_shader->Some_0,
            descriptor.vertex_layout.array_stride == 24,
            descriptor.vertex_layout.attributes[0] == (VertexAttribute {
                offset: 0,
                shader_location: 0,
                components: 3,
            }),
            descriptor.vertex_layout.attributes[1] == (VertexAttribute {
                offset: 12,
                shader_location: 1,
                components: 3,
            }),
            descriptor.topology == self.topology,
            descriptor.front_face == self.front_face,
            descriptor.cull_mode == self.cull_mode,
            descriptor.polygon_mode == self.polygon_mode,
            descriptor.sample_count == 1,
            descriptor.depth_stencil == if self.use_depth_stencil {
                Some(DepthStencilState { depth_bits: 32, depth_write_enabled: true, pass_if_less: true })
            } else {
                None::<DepthStencilState>
            },
    {
        let depth_stencil = if self.use_depth_stencil {
            Some(DepthStencilState { depth_bits: 32, depth_write_enabled: true, pass_if_less: true })
        } else {
            None
        };
        RenderPipelineDescriptor {
            vertex_shader: self.vertex_shader.unwrap(),
            fragment_shader: self.fragment_shader.unwrap(),
            vertex_layout: Vertex::desc(),
            topology: self.topology,
            front_face: self.front_face,
            cull_mode: self.cull_mode,
            polygon_mode: self.polygon_mode,
            depth_stencil,
            sample_count: 1,
        }
    }
}

/// A compute pipeline. The renderer has no compute pass, so it holds
/// nothing.
#[derive(Clone, Copy, Debug, PartialEq, Eq)]
pub struct ComputePipeline {}

} // verus!
