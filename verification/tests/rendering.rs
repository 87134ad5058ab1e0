use grt::components::rendering::{DiffuseMaterial, Mesh, Renderer, Transform};
use grt::gpu::{Buffer, Handle};
use grt::material_manager::Shader;
use grt::store::{Entity, Storage};
use grt::systems::rendering::{
    DrawCommand, Frame, FrameStatus, IndexFormat, Recovery, RenderError, RenderSystem, CLEAR_COLOR,
};

fn handle(index: usize) -> Handle {
    Handle { batch: 0, index }
}

fn shader() -> Shader {
    Shader { shader: handle(100), layout: handle(101), pipeline: handle(102) }
}

fn mesh(first: usize, elements: u32) -> Mesh {
    Mesh {
        name: "m".to_string(),
        vertices: vec![],
        indices: vec![0; elements as usize],
        vertex_buffer: Some(Buffer { handle: handle(first), len: 0 }),
        index_buffer: Some(Buffer { handle: handle(first + 1), len: elements as usize }),
        num_elements: elements,
        material: 0,
    }
}

fn material(bind: Option<usize>) -> DiffuseMaterial {
    DiffuseMaterial {
        name: "m".to_string(),
        diffuse_texture: "m.png".to_string(),
        diffuse_bind: bind.map(handle),
    }
}

fn transform(bind: Option<usize>) -> Transform {
    let mut transform = Transform::default();
    transform.bind = bind.map(handle);
    transform
}

fn world() -> (Storage<Renderer>, Storage<Transform>) {
    let mut renderers = Storage::new();
    let mut transforms = Storage::new();
    renderers.insert(
        Entity { id: 0 },
        Renderer {
            meshes: vec![mesh(10, 3), mesh(20, 6)],
            materials: vec![material(Some(50)), material(Some(51))],
        },
    );
    transforms.insert(Entity { id: 0 }, transform(Some(60)));
    transforms.insert(Entity { id: 1 }, transform(None));
    renderers.insert(Entity { id: 2 }, Renderer { meshes: vec![], materials: vec![] });
    renderers.insert(
        Entity { id: 3 },
        Renderer { meshes: vec![mesh(30, 9)], materials: vec![material(Some(52))] },
    );
    transforms.insert(Entity { id: 3 }, transform(Some(61)));
    (renderers, transforms)
}

fn draws_of(first: usize, count: u32) -> Vec<DrawCommand> {
    vec![
        DrawCommand::SetVertexBuffer { slot: 0, buffer: handle(first) },
        DrawCommand::SetIndexBuffer { buffer: handle(first + 1), format: IndexFormat::Uint32 },
        DrawCommand::DrawIndexed { count },
    ]
}

#[test]
fn the_clear_colour() {
    assert_eq!(CLEAR_COLOR.map(f64::from_bits), [0.1, 0.2, 0.3, 1.0]);
}

#[test]
fn a_frame_draws_every_entity_with_renderer_and_transform_in_order() {
    let (renderers, transforms) = world();
    let frame = RenderSystem.run(&renderers, &transforms, &shader(), FrameStatus::Ready).unwrap();
    let mut expected = vec![
        DrawCommand::SetPipeline { pipeline: handle(102) },
        DrawCommand::SetBindGroup { slot: 0, group: handle(50) },
        DrawCommand::SetBindGroup { slot: 1, group: handle(60) },
    ];
    expected.extend(draws_of(10, 3));
    expected.extend(draws_of(20, 6));
    expected.extend(vec![
        DrawCommand::SetPipeline { pipeline: handle(102) },
        DrawCommand::SetBindGroup { slot: 0, group: handle(52) },
        DrawCommand::SetBindGroup { slot: 1, group: handle(61) },
    ]);
    expected.extend(draws_of(30, 9));
    assert_eq!(frame, Frame { clear: CLEAR_COLOR, commands: expected });
}

#[test]
fn an_empty_world_gives_an_empty_frame() {
    let renderers: Storage<Renderer> = Storage::new();
    let transforms: Storage<Transform> = Storage::new();
    assert_eq!(
        RenderSystem.run(&renderers, &transforms, &shader(), FrameStatus::Ready),
        Ok(Frame { clear: CLEAR_COLOR, commands: vec![] })
    );
}

#[test]
fn a_mesh_without_buffers_fails_the_frame_whatever_its_count() {
    let (mut renderers, transforms) = world();
    let mut unbuilt = mesh(70, 0);
    unbuilt.indices = vec![0, 1, 2];
    unbuilt.vertex_buffer = None;
    unbuilt.index_buffer = None;
    renderers.insert(
        Entity { id: 3 },
        Renderer { meshes: vec![unbuilt, mesh(30, 9)], materials: vec![material(Some(52))] },
    );
    assert_eq!(
        RenderSystem.run(&renderers, &transforms, &shader(), FrameStatus::Ready),
        Err(RenderError::ResourceBindingMissing { entity: Entity { id: 3 } })
    );
    let mut half = mesh(70, 0);
    half.vertex_buffer = None;
    renderers.insert(
        Entity { id: 3 },
        Renderer { meshes: vec![half], materials: vec![material(Some(52))] },
    );
    assert_eq!(
        RenderSystem.run(&renderers, &transforms, &shader(), FrameStatus::Ready),
        Err(RenderError::ResourceBindingMissing { entity: Entity { id: 3 } })
    );
}

#[test]
fn a_mesh_with_buffers_and_without_elements_is_not_drawn() {
    let (mut renderers, transforms) = world();
    let empty = mesh(70, 0);
    renderers.insert(
        Entity { id: 3 },
        Renderer { meshes: vec![empty, mesh(30, 9)], materials: vec![material(Some(52))] },
    );
    let frame = RenderSystem.run(&renderers, &transforms, &shader(), FrameStatus::Ready).unwrap();
    assert_eq!(frame.commands.len(), 9 + 6);
    assert_eq!(frame.commands[12..].to_vec(), draws_of(30, 9));
}

#[test]
fn without_a_frame_nothing_is_recorded() {
    let (renderers, transforms) = world();
    for status in
        [FrameStatus::Timeout, FrameStatus::Outdated, FrameStatus::Lost, FrameStatus::OutOfMemory]
    {
        assert_eq!(
            RenderSystem.run(&renderers, &transforms, &shader(), status),
            Err(RenderError::SurfaceUnavailable { status })
        );
    }
}

#[test]
fn a_material_without_bind_group_fails_the_frame() {
    let (mut renderers, transforms) = world();
    renderers.insert(
        Entity { id: 3 },
        Renderer { meshes: vec![mesh(30, 9)], materials: vec![material(None), material(Some(1))] },
    );
    assert_eq!(
        RenderSystem.run(&renderers, &transforms, &shader(), FrameStatus::Ready),
        Err(RenderError::ResourceBindingMissing { entity: Entity { id: 3 } })
    );
}

#[test]
fn a_renderer_without_material_fails_the_frame() {
    let (renderers, mut transforms) = world();
    transforms.insert(Entity { id: 2 }, transform(Some(62)));
    assert_eq!(
        RenderSystem.run(&renderers, &transforms, &shader(), FrameStatus::Ready),
        Err(RenderError::ResourceBindingMissing { entity: Entity { id: 2 } })
    );
}

#[test]
fn a_transform_without_bind_group_fails_the_frame() {
    let (renderers, mut transforms) = world();
    transforms.insert(Entity { id: 0 }, transform(None));
    assert_eq!(
        RenderSystem.run(&renderers, &transforms, &shader(), FrameStatus::Ready),
        Err(RenderError::ResourceBindingMissing { entity: Entity { id: 0 } })
    );
}

#[test]
fn a_mesh_with_elements_and_without_buffer_fails_the_frame() {
    let (mut renderers, transforms) = world();
    let mut unbuilt = mesh(30, 9);
    unbuilt.index_buffer = None;
    renderers.insert(
        Entity { id: 3 },
        Renderer { meshes: vec![unbuilt], materials: vec![material(Some(52))] },
    );
    assert_eq!(
        RenderSystem.run(&renderers, &transforms, &shader(), FrameStatus::Ready),
        Err(RenderError::ResourceBindingMissing { entity: Entity { id: 3 } })
    );
}

#[test]
fn the_first_entity_that_fails_is_reported() {
    let (mut renderers, mut transforms) = world();
    transforms.insert(Entity { id: 0 }, transform(None));
    renderers.insert(Entity { id: 3 }, Renderer { meshes: vec![], materials: vec![] });
    assert_eq!(
        RenderSystem.run(&renderers, &transforms, &shader(), FrameStatus::Ready),
        Err(RenderError::ResourceBindingMissing { entity: Entity { id: 0 } })
    );
}

#[test]
fn a_lost_or_outdated_surface_is_configured_again_once() {
    assert_eq!(RenderSystem::recover(FrameStatus::Lost, false), Recovery::Reconfigure);
    assert_eq!(RenderSystem::recover(FrameStatus::Outdated, false), Recovery::Reconfigure);
    assert_eq!(RenderSystem::recover(FrameStatus::Lost, true), Recovery::Fatal);
    assert_eq!(RenderSystem::recover(FrameStatus::Outdated, true), Recovery::Fatal);
}

#[test]
fn a_timeout_or_exhausted_memory_is_fatal() {
    assert_eq!(RenderSystem::recover(FrameStatus::Timeout, false), Recovery::Fatal);
    assert_eq!(RenderSystem::recover(FrameStatus::OutOfMemory, false), Recovery::Fatal);
    assert_eq!(RenderSystem::recover(FrameStatus::Timeout, true), Recovery::Fatal);
}
