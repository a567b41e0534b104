use sector_engine::mesh::{Mesh, Vertex, VertexAttribute};
use sector_engine::pipeline::{
    ComputePipeline, DepthStencilState, Face, FrontFace, PolygonMode, PrimitiveTopology,
    RenderPipelineBuilder,
};
use sector_engine::uniform::{UniformBuffer, UNIFORM_BLOCK_LEN};

fn in_memory(words: &[u32]) -> Vec<u8> {
    let mut bytes = Vec::new();
    for w in words {
        bytes.extend(w.to_ne_bytes());
    }
    bytes
}

fn matrix(first: u32) -> [u32; 16] {
    let mut m = [0u32; 16];
    for (k, cell) in m.iter_mut().enumerate() {
        *cell = first + k as u32;
    }
    m
}

#[test]
fn vertex_layout_is_position_then_color() {
    let layout = Vertex::desc();
    assert_eq!(layout.array_stride, 24);
    assert_eq!(layout.array_stride as usize, std::mem::size_of::<Vertex>());
    assert_eq!(layout.attributes[0], VertexAttribute { offset: 0, shader_location: 0, components: 3 });
    assert_eq!(layout.attributes[1], VertexAttribute { offset: 12, shader_location: 1, components: 3 });
}

#[test]
fn mesh_buffers_hold_the_data_in_memory_order() {
    let vertices = vec![
        Vertex { position: [0x0102_0304, 2, 3], color: [4, 5, 6] },
        Vertex { position: [7, 8, 9], color: [10, 11, 0xa0b0_c0d0] },
    ];
    let indices = vec![0u32, 1, 0, 0x0001_0000];
    let mesh = Mesh::from_data(&vertices, &indices);
    assert_eq!(mesh.index_count, 4);
    assert_eq!(mesh.vertex_buffer.len(), 48);
    assert_eq!(
        mesh.vertex_buffer,
        in_memory(&[0x0102_0304, 2, 3, 4, 5, 6, 7, 8, 9, 10, 11, 0xa0b0_c0d0])
    );
    assert_eq!(mesh.index_buffer, in_memory(&indices));
    assert_eq!(&mesh.index_buffer[12..], &0x0001_0000u32.to_ne_bytes());
}

#[test]
fn mesh_of_nothing_has_empty_buffers() {
    let mesh = Mesh::from_data(&Vec::new(), &Vec::new());
    assert_eq!(mesh.index_count, 0);
    assert!(mesh.vertex_buffer.is_empty());
    assert!(mesh.index_buffer.is_empty());
}

#[test]
fn uniform_block_holds_the_three_matrices() {
    let block = UniformBuffer::new(matrix(100), matrix(200), matrix(300));
    assert_eq!(block.projection_matrix, matrix(100));
    assert_eq!(block.view_matrix, matrix(200));
    assert_eq!(block.model_matrix, matrix(300));
}

#[test]
fn update_replaces_all_three_matrices() {
    let mut block = UniformBuffer::new(matrix(100), matrix(200), matrix(300));
    block.update(matrix(1), matrix(2), matrix(3));
    assert_eq!(block, UniformBuffer::new(matrix(1), matrix(2), matrix(3)));
}

#[test]
fn update_view_replaces_only_the_view_matrix() {
    let mut block = UniformBuffer::new(matrix(100), matrix(200), matrix(300));
    block.update_view(matrix(7));
    assert_eq!(block, UniformBuffer::new(matrix(100), matrix(7), matrix(300)));
}

#[test]
fn update_model_replaces_only_the_model_matrix() {
    let mut block = UniformBuffer::new(matrix(100), matrix(200), matrix(300));
    block.update_model(matrix(9));
    assert_eq!(block, UniformBuffer::new(matrix(100), matrix(200), matrix(9)));
}

#[test]
fn uniform_bytes_are_projection_view_model_in_memory_order() {
    let block = UniformBuffer::new(matrix(0x1000_0000), matrix(0x2000_0000), matrix(0x3000_0000));
    let bytes = block.to_bytes();
    assert_eq!(bytes.len(), UNIFORM_BLOCK_LEN);
    assert_eq!(bytes.len(), 192);
    let mut words = Vec::new();
    words.extend(matrix(0x1000_0000));
    words.extend(matrix(0x2000_0000));
    words.extend(matrix(0x3000_0000));
    assert_eq!(bytes, in_memory(&words));
}

#[test]
fn new_builder_has_the_default_settings() {
    let builder = RenderPipelineBuilder::<String>::new();
    assert!(builder.vertex_shader.is_none());
    assert!(builder.fragment_shader.is_none());
    assert!(!builder.use_depth_stencil);
    assert_eq!(builder.topology, PrimitiveTopology::TriangleList);
    assert_eq!(builder.front_face, FrontFace::Cw);
    assert_eq!(builder.cull_mode, None);
    assert_eq!(builder.polygon_mode, PolygonMode::Fill);
}

#[test]
fn builder_keeps_each_setting() {
    let vs = String::from("vertex");
    let fs = String::from("fragment");
    let builder = RenderPipelineBuilder::new()
        .fragment_shader(&fs)
        .vertex_shader(&vs)
        .depth_stencil(true)
        .topology(PrimitiveTopology::TriangleStrip)
        .front_face(FrontFace::Ccw)
        .cull_mode(Face::Back)
        .polygon_mode(PolygonMode::Line);
    assert_eq!(builder.vertex_shader, Some(&vs));
    assert_eq!(builder.fragment_shader, Some(&fs));
    assert!(builder.use_depth_stencil);
    assert_eq!(builder.topology, PrimitiveTopology::TriangleStrip);
    assert_eq!(builder.front_face, FrontFace::Ccw);
    assert_eq!(builder.cull_mode, Some(Face::Back));
    assert_eq!(builder.polygon_mode, PolygonMode::Line);
}

#[test]
fn built_description_follows_the_builder() {
    let vs = String::from("vertex");
    let fs = String::from("fragment");
    let descriptor = RenderPipelineBuilder::new()
        .fragment_shader(&fs)
        .vertex_shader(&vs)
        .depth_stencil(true)
        .cull_mode(Face::Back)
        .build();
    assert_eq!(descriptor.vertex_shader, &vs);
    assert_eq!(descriptor.fragment_shader, &fs);
    assert_eq!(descriptor.vertex_layout, Vertex::desc());
    assert_eq!(descriptor.topology, PrimitiveTopology::TriangleList);
    assert_eq!(descriptor.front_face, FrontFace::Cw);
    assert_eq!(descriptor.cull_mode, Some(Face::Back));
    assert_eq!(descriptor.polygon_mode, PolygonMode::Fill);
    assert_eq!(descriptor.sample_count, 1);
    assert_eq!(
        descriptor.depth_stencil,
        Some(DepthStencilState { depth_bits: 32, depth_write_enabled: true, pass_if_less: true })
    );
}

#[test]
fn description_without_depth_test_has_none() {
    let shader = 7u8;
    let descriptor = RenderPipelineBuilder::new().vertex_shader(&shader).fragment_shader(&shader).build();
    assert_eq!(descriptor.depth_stencil, None);
    assert_eq!(descriptor.cull_mode, None);
}

#[test]
fn compute_pipeline_holds_nothing() {
    assert_eq!(std::mem::size_of::<ComputePipeline>(), 0);
    assert_eq!(ComputePipeline {}, ComputePipeline {});
}
