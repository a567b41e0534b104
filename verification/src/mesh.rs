//! Render geometry of one surface: vertices with a colour, and the indices
//! that join them into triangles.

use vstd::prelude::*;
use crate::memory::{in_memory_order, words_as_bytes};

verus! {

/// One corner of a render mesh. Coordinates and colour channels are carried
/// as IEEE-754 binary32 bit patterns, in the order x, y, z and red, green,
/// blue.
#[derive(Clone, Copy, Debug, PartialEq, Eq)]
pub struct Vertex {
    pub position: [u32; 3],
    pub color: [u32; 3],
}

/// What a mesh holds: its vertices in order, and its index list, of which
/// every three consecutive entries name one triangle.
pub struct MeshModel {
    pub vertices: Seq<Vertex>,
    pub indices: Seq<u32>,
}

impl MeshModel {
    /// Every index names a vertex of this mesh.
    pub open spec fn indices_in_range(self) -> bool {
        forall|i: int| 0 <= i < self.indices.len() ==> (#[trigger] self.indices[i]) < self.vertices.len()
    }

    /// The number of whole triangles in the index list.
    pub open spec fn triangle_count(self) -> nat {
        self.indices.len() / 3
    }
}

/// The geometry of one surface as it is kept in memory.
#[derive(Clone, Debug, PartialEq, Eq)]
pub struct MeshData {
    pub vertices: Vec<Vertex>,
    pub indices: Vec<u32>,
}

impl View for MeshData {
    type V = MeshModel;

    open spec fn view(&self) -> MeshModel {
        MeshModel { vertices: self.vertices@, indices: self.indices@ }
    }
}

impl MeshData {
    /// Whether every index names a vertex of this mesh.
    pub fn indices_in_range(&self) -> (ok: bool)
        ensures
            ok == self@.indices_in_range(),
    {
        let count: usize = self.vertices.len();
        let mut i: usize = 0;
        while i < self.indices.len()
            invariant
                i <= self.indices@.len(),
                count == self.vertices@.len(),
                forall|k: int| 0 <= k < i ==> (#[trigger] self.indices@[k]) < count,
            decreases self.indices@.len() - i,
        {
            if self.indices[i] as usize >= count {
                assert(self@.indices[i as int] >= self@.vertices.len());
                return false;
            }
            i += 1;
        }
        true
    }
}

/// The words of a vertex list in buffer order: for each vertex x, y, z, then
/// red, green, blue.
pub open spec fn vertex_words(vertices: Seq<Vertex>) -> Seq<u32> {
    Seq::new(
        6 * vertices.len(),
        |k: int|
            if k % 6 < 3 {
                vertices[k / 6].position[k % 6]
            } else {
                vertices[k / 6].color[k % 6 - 3]
            },
    )
}

/// The layout of one attribute of a vertex in a vertex buffer.
#[derive(Clone, Copy, Debug, PartialEq, Eq)]
pub struct VertexAttribute {
    /// Bytes from the start of the vertex to the attribute.
    pub offset: u64,
    /// The shader input that the attribute feeds.
    pub shader_location: u32,
    /// The number of binary32 components.
    pub components: u32,
}

/// The layout of a vertex buffer: vertices one after the other, position
/// first and colour second.
#[derive(Clone, Copy, Debug, PartialEq, Eq)]
pub struct VertexBufferLayout {
    /// Bytes from one vertex to the next.
    pub array_stride: u64,
    pub attributes: [VertexAttribute; 2],
}

impl Vertex {
    /// The layout in which [`Mesh::from_data`] writes vertices: 24 bytes a
    /// vertex, the position as three components at offset 0 for shader
    /// input 0, the colour as three components at offset 12 for shader
    /// input 1.
    pub fn desc() -> (layout: VertexBufferLayout)
        ensures
            layout.array_stride == 24,
            layout.attributes[0] == (VertexAttribute { offset: 0, shader_location: 0, components: 3 }),
            layout.attributes[1] == (VertexAttribute {
                offset: 12,
                shader_location: 1,
                components: 3,
            }),
    {
        VertexBufferLayout {
            array_stride: 24,
            attributes: [
                VertexAttribute { offset: 0, shader_location: 0, components: 3 },
                VertexAttribute { offset: 12, shader_location: 1, components: 3 },
            ],
        }
    }
}

/// A mesh made ready for the graphics device: the contents of its vertex
/// buffer and of its index buffer, and the number of indices to draw.
#[derive(Clone, Debug, PartialEq, Eq)]
pub struct Mesh {
    pub vertex_buffer: Vec<u8>,
    pub index_buffer: Vec<u8>,
    pub index_count: u32,
}

impl Mesh {
    /// Lays out a vertex list and an index list as buffer contents.
    ///
    /// The vertex buffer holds the vertices in order, six words each as
    /// [`vertex_words`] says; the index buffer holds the indices in order.
    /// Both are in the byte order of the machine. The index count must fit
    /// the 32 bits of a draw call.
    pub fn from_data(vertex_buffer: &Vec<Vertex>, index_buffer: &Vec<u32>) -> (mesh: Mesh)
        requires
            index_buffer@.len() <= u32::MAX,
        ensures
            mesh.index_count == index_buffer@.len(),
            in_memory_order(mesh.vertex_buffer@, vertex_words(vertex_buffer@)),
            in_memory_order(mesh.index_buffer@, index_buffer@),
    {
        let mut words: Vec<u32> = Vec::new();
        let mut i: usize = 0;
        while i < vertex_buffer.len()
            invariant
                i <= vertex_buffer@.len(),
                words@ == vertex_words(vertex_buffer@.take(i as int)),
            decreases vertex_buffer@.len() - i,
        {
            let v = &vertex_buffer[i];
            let ghost before = words@;
            words.push(v.position[0]);
            words.push(v.position[1]);
            words.push(v.position[2]);
            words.push(v.color[0]);
            words.push(v.color[1]);
            words.push(v.color[2]);
            i += 1;
            proof {
                let grown = vertex_words(vertex_buffer@.take(i as int));
                assert(words@.len() == grown.len());
                assert forall|k: int| 0 <= k < grown.len() implies words@[k] == grown[k] by {
                    if k < before.len() {
                        assert(before[k] == vertex_words(vertex_buffer@.take(i - 1))[k]);
                        assert(vertex_buffer@.take(i - 1)[k / 6] == vertex_buffer@.take(i as int)[k
                            / 6]);
                    } else {
                        assert(k / 6 == i - 1);
                    }
                }
                assert(words@ == grown);
            }
        }
        assert(vertex_buffer@.take(i as int) == vertex_buffer@);
        let index_count: usize = index_buffer.len();
        Mesh {
            vertex_buffer: words_as_bytes(&words),
            index_buffer: words_as_bytes(index_buffer),
            index_count: index_count as u32,
        }
    }
}

} // verus!
