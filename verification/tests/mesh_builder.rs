use grt::components::rendering::{Mesh, Renderer, Vertex};
use grt::gpu::{BufferUsage, Command, Gpu};
use grt::store::{Entity, Storage};
use grt::systems::mesh_builder::MeshBuilderSystem;

fn mesh(name: &str, vertices: usize, indices: Vec<u32>) -> Mesh {
    Mesh {
        name: name.to_string(),
        vertices: vec![Vertex { position: [1, 2, 3], tex_coords: [4, 5], normal: [6, 7, 8] }; vertices],
        indices,
        vertex_buffer: None,
        index_buffer: None,
        num_elements: 0,
        material: 0,
    }
}

fn world() -> Storage<Renderer> {
    let mut renderers = Storage::new();
    renderers.insert(
        Entity { id: 0 },
        Renderer { meshes: vec![mesh("a", 3, vec![0, 1, 2])], materials: vec![] },
    );
    renderers.insert(
        Entity { id: 2 },
        Renderer {
            meshes: vec![mesh("b", 4, vec![0, 1, 2, 2, 3, 0]), mesh("c", 0, vec![])],
            materials: vec![],
        },
    );
    renderers
}

#[test]
fn one_cycle_builds_every_mesh_with_the_lengths_of_its_description() {
    let mut renderers = world();
    let mut gpu = Gpu::new();
    MeshBuilderSystem.run(&mut renderers, &mut gpu);
    for id in [0usize, 2] {
        let renderer = renderers.get(Entity { id }).unwrap();
        for mesh in renderer.meshes.iter() {
            assert_eq!(mesh.vertex_buffer.unwrap().len, 8 * mesh.vertices.len());
            assert_eq!(mesh.index_buffer.unwrap().len, mesh.indices.len());
            assert_eq!(mesh.num_elements as usize, mesh.indices.len());
            assert!(!mesh.is_stale());
            match gpu.command(mesh.vertex_buffer.unwrap().handle.index) {
                Command::CreateBuffer { usage, contents, .. } => {
                    assert_eq!(*usage, BufferUsage::Vertex);
                    assert_eq!(contents.len(), 8 * mesh.vertices.len());
                }
                other => panic!("{:?}", other),
            }
            match gpu.command(mesh.index_buffer.unwrap().handle.index) {
                Command::CreateBuffer { usage, contents, .. } => {
                    assert_eq!(*usage, BufferUsage::Index);
                    assert_eq!(contents, &mesh.indices);
                }
                other => panic!("{:?}", other),
            }
        }
    }
    assert!(renderers.get(Entity { id: 1 }).is_none());
    assert_eq!(gpu.len(), 6);
}

#[test]
fn the_stage_visits_entities_and_meshes_in_order() {
    let mut renderers = world();
    let mut gpu = Gpu::new();
    MeshBuilderSystem.run(&mut renderers, &mut gpu);
    let labels: Vec<String> = gpu
        .take()
        .unwrap()
        .into_iter()
        .map(|command| match command {
            Command::CreateBuffer { label, .. } => label,
            other => panic!("{:?}", other),
        })
        .collect();
    assert_eq!(
        labels,
        vec![
            "a Vertex Buffer",
            "a Index Buffer",
            "b Vertex Buffer",
            "b Index Buffer",
            "c Vertex Buffer",
            "c Index Buffer"
        ]
    );
}

#[test]
fn a_second_cycle_without_change_builds_nothing() {
    let mut renderers = world();
    let mut gpu = Gpu::new();
    MeshBuilderSystem.run(&mut renderers, &mut gpu);
    let first = (
        renderers.get(Entity { id: 0 }).unwrap().clone(),
        renderers.get(Entity { id: 2 }).unwrap().clone(),
    );
    let commands = gpu.len();
    MeshBuilderSystem.run(&mut renderers, &mut gpu);
    assert_eq!(gpu.len(), commands);
    assert_eq!(renderers.get(Entity { id: 0 }).unwrap(), &first.0);
    assert_eq!(renderers.get(Entity { id: 2 }).unwrap(), &first.1);
}

#[test]
fn a_changed_index_count_leads_to_new_buffers_of_the_new_length() {
    let mut renderers = world();
    let mut gpu = Gpu::new();
    MeshBuilderSystem.run(&mut renderers, &mut gpu);
    let before = renderers.get(Entity { id: 2 }).unwrap().clone();
    let mut changed = before.clone();
    changed.meshes[0].indices = vec![0, 1, 2];
    renderers.insert(Entity { id: 2 }, changed);
    let commands = gpu.len();
    MeshBuilderSystem.run(&mut renderers, &mut gpu);
    let after = renderers.get(Entity { id: 2 }).unwrap();
    let rebuilt = after.meshes[0].index_buffer.unwrap();
    assert_eq!(rebuilt.len, 3);
    assert_eq!(after.meshes[0].num_elements, 3);
    assert_ne!(rebuilt.handle, before.meshes[0].index_buffer.unwrap().handle);
    assert_ne!(
        after.meshes[0].vertex_buffer.unwrap().handle,
        before.meshes[0].vertex_buffer.unwrap().handle
    );
    assert!(rebuilt.handle.index >= commands);
    assert_eq!(after.meshes[1], before.meshes[1]);
    assert_eq!(gpu.len(), commands + 4);
    assert_eq!(
        gpu.command(commands),
        &Command::Release { handle: before.meshes[0].vertex_buffer.unwrap().handle }
    );
    assert_eq!(
        gpu.command(commands + 1),
        &Command::Release { handle: before.meshes[0].index_buffer.unwrap().handle }
    );
}

#[test]
fn build_all_builds_the_meshes_of_one_renderer() {
    let mut meshes = vec![mesh("x", 1, vec![0, 0, 0]), mesh("y", 2, vec![1, 1, 1])];
    let mut gpu = Gpu::new();
    MeshBuilderSystem::build_all(&mut meshes, &mut gpu);
    assert_eq!(meshes[0].vertex_buffer.unwrap().handle.index, 0);
    assert_eq!(meshes[0].index_buffer.unwrap().handle.index, 1);
    assert_eq!(meshes[1].vertex_buffer.unwrap().handle.index, 2);
    assert_eq!(meshes[1].index_buffer.unwrap().handle.index, 3);
    assert_eq!(meshes[1].vertex_buffer.unwrap().len, 16);
}
