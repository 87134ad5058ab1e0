use cgmath::{Deg, Matrix4, Point3, Quaternion, Vector3};
use grt::components::rendering::{Camera, Renderer, Transform};
use grt::gpu::{Binding, BufferUsage, Command, Gpu, Handle};
use grt::store::{Entity, Storage};
use grt::systems::camera::{CameraSystem, ProjectionCount, ViewPlan};

fn point(bits: [u32; 3]) -> Point3<f32> {
    Point3::new(f32::from_bits(bits[0]), f32::from_bits(bits[1]), f32::from_bits(bits[2]))
}

fn vector(bits: [u32; 3]) -> Vector3<f32> {
    Vector3::new(f32::from_bits(bits[0]), f32::from_bits(bits[1]), f32::from_bits(bits[2]))
}

fn projection(camera: &Camera, eye: &Transform, subject: &Transform) -> [[u32; 4]; 4] {
    let correction = Matrix4::new(
        1.0, 0.0, 0.0, 0.0, 0.0, 1.0, 0.0, 0.0, 0.0, 0.0, 0.5, 0.0, 0.0, 0.0, 0.5, 1.0,
    );
    let view = Matrix4::look_at_rh(point(eye.position), point(camera.target), vector(camera.up));
    let aspect = camera.aspect.width as f32 / camera.aspect.height as f32;
    let perspective = cgmath::perspective(
        Deg(f32::from_bits(camera.fovy)),
        aspect,
        f32::from_bits(camera.znear),
        f32::from_bits(camera.zfar),
    );
    let rotation = Quaternion::new(
        f32::from_bits(subject.rotation[3]),
        f32::from_bits(subject.rotation[0]),
        f32::from_bits(subject.rotation[1]),
        f32::from_bits(subject.rotation[2]),
    );
    let scale = vector(subject.scale);
    let model = Matrix4::from_translation(vector(subject.position))
        * Matrix4::from(rotation)
        * Matrix4::from_nonuniform_scale(scale.x, scale.y, scale.z);
    let columns: [[f32; 4]; 4] = (correction * perspective * view * model).into();
    columns.map(|column| column.map(f32::to_bits))
}

struct World {
    cameras: Storage<Camera>,
    transforms: Storage<Transform>,
    renderers: Storage<Renderer>,
}

fn world() -> World {
    let mut world =
        World { cameras: Storage::new(), transforms: Storage::new(), renderers: Storage::new() };
    world.renderers.insert(Entity { id: 0 }, Renderer::default());
    world.transforms.insert(Entity { id: 0 }, Transform::default());
    world.cameras.insert(Entity { id: 1 }, Camera::default());
    let mut eye = Transform::default();
    eye.position = [0.0f32.to_bits(), 0.0f32.to_bits(), 10.0f32.to_bits()];
    world.transforms.insert(Entity { id: 1 }, eye);
    world
}

fn matrices(world: &World) -> Vec<[[u32; 4]; 4]> {
    match CameraSystem.plan(&world.cameras, &world.transforms, &world.renderers) {
        Some(plan) => {
            let camera = world.cameras.get(plan.eye).unwrap();
            let eye = world.transforms.get(plan.eye).unwrap();
            plan.subjects
                .iter()
                .map(|subject| projection(camera, eye, world.transforms.get(*subject).unwrap()))
                .collect()
        }
        None => vec![],
    }
}

fn uploaded(gpu: &Gpu, bind: Handle) -> Vec<u32> {
    let buffer = match gpu.command(bind.index) {
        Command::CreateBindGroup { entries, .. } => match entries[0] {
            Binding::Buffer(buffer) => buffer,
            other => panic!("{:?}", other),
        },
        other => panic!("{:?}", other),
    };
    match gpu.command(buffer.index) {
        Command::CreateBuffer { usage, contents, .. } => {
            assert_eq!(*usage, BufferUsage::Uniform);
            contents.clone()
        }
        other => panic!("{:?}", other),
    }
}

#[test]
fn the_plan_names_the_first_camera_and_the_drawn_entities() {
    let mut world = world();
    world.cameras.insert(Entity { id: 4 }, Camera::default());
    world.transforms.insert(Entity { id: 4 }, Transform::default());
    world.renderers.insert(Entity { id: 4 }, Renderer::default());
    world.renderers.insert(Entity { id: 6 }, Renderer::default());
    world.cameras.insert(Entity { id: 0 }, Camera::default());
    world.transforms.remove(Entity { id: 0 });
    assert_eq!(
        CameraSystem.plan(&world.cameras, &world.transforms, &world.renderers),
        Some(ViewPlan { eye: Entity { id: 1 }, subjects: vec![Entity { id: 4 }] })
    );
}

#[test]
fn without_a_camera_there_is_no_plan_and_nothing_is_done() {
    let mut world = world();
    world.cameras.remove(Entity { id: 1 });
    assert_eq!(CameraSystem.plan(&world.cameras, &world.transforms, &world.renderers), None);
    let mut gpu = Gpu::new();
    let layout = Handle { batch: 0, index: 0 };
    let given = vec![[[0; 4]; 4]; 3];
    assert_eq!(
        CameraSystem.run(
            &world.cameras,
            &mut world.transforms,
            &world.renderers,
            &given,
            layout,
            &mut gpu
        ),
        Ok(())
    );
    assert_eq!(gpu.len(), 0);
    assert_eq!(world.transforms.get(Entity { id: 0 }).unwrap().bind, None);
}

#[test]
fn bind_uploads_the_matrix_column_by_column() {
    let mut gpu = Gpu::new();
    let mut transform = Transform::default();
    let layout = Handle { batch: 0, index: 40 };
    let matrix = [[1, 2, 3, 4], [5, 6, 7, 8], [9, 10, 11, 12], [13, 14, 15, 16]];
    CameraSystem::bind(&mut transform, matrix, layout, &mut gpu);
    assert_eq!(transform.bind, Some(Handle { batch: 0, index: 1 }));
    assert_eq!(
        gpu.take(),
        Some(vec![
            Command::CreateBuffer {
                label: "Camera Buffer".to_string(),
                usage: BufferUsage::Uniform,
                contents: (1..17).collect(),
            },
            Command::CreateBindGroup {
                label: "transform_bind_group".to_string(),
                layout,
                entries: vec![Binding::Buffer(Handle { batch: 0, index: 0 })],
            },
            Command::Release { handle: Handle { batch: 0, index: 0 } },
        ])
    );
    assert_eq!(transform.position, Transform::default().position);
}

#[test]
fn bind_releases_the_bind_group_that_was_there() {
    let mut gpu = Gpu::new();
    let mut transform = Transform::default();
    transform.bind = Some(Handle { batch: 0, index: 99 });
    CameraSystem::bind(&mut transform, [[0; 4]; 4], Handle { batch: 0, index: 40 }, &mut gpu);
    assert_eq!(gpu.command(0), &Command::Release { handle: Handle { batch: 0, index: 99 } });
    assert_eq!(transform.bind, Some(Handle { batch: 0, index: 2 }));
    assert_eq!(gpu.len(), 4);
}

#[test]
fn another_number_of_matrices_than_subjects_is_refused() {
    let mut world = world();
    let mut gpu = Gpu::new();
    let given = vec![[[0; 4]; 4]; 2];
    assert_eq!(
        CameraSystem.run(
            &world.cameras,
            &mut world.transforms,
            &world.renderers,
            &given,
            Handle { batch: 0, index: 0 },
            &mut gpu
        ),
        Err(ProjectionCount { expected: 1, given: 2 })
    );
    assert_eq!(gpu.len(), 0);
    assert_eq!(world.transforms.get(Entity { id: 0 }).unwrap().bind, None);
}

#[test]
fn every_cycle_rebuilds_the_binding() {
    let mut world = world();
    let mut gpu = Gpu::new();
    let layout = Handle { batch: 0, index: 0 };
    let given = matrices(&world);
    for _ in 0..2 {
        CameraSystem
            .run(&world.cameras, &mut world.transforms, &world.renderers, &given, layout, &mut gpu)
            .unwrap();
    }
    assert_eq!(gpu.len(), 7);
    assert_eq!(gpu.command(3), &Command::Release { handle: Handle { batch: 0, index: 1 } });
    assert_eq!(world.transforms.get(Entity { id: 0 }).unwrap().bind, Some(Handle { batch: 0, index: 5 }));
    assert_eq!(world.transforms.get(Entity { id: 1 }).unwrap().bind, None);
}

#[test]
fn the_matrix_of_the_default_scene_is_the_same_in_two_cycles() {
    let mut world = world();
    let mut gpu = Gpu::new();
    let layout = Handle { batch: 0, index: 0 };

    let first = matrices(&world);
    assert_eq!(first.len(), 1);
    CameraSystem
        .run(&world.cameras, &mut world.transforms, &world.renderers, &first, layout, &mut gpu)
        .unwrap();
    let first_bind = world.transforms.get(Entity { id: 0 }).unwrap().bind.unwrap();
    let first_words = uploaded(&gpu, first_bind);

    let second = matrices(&world);
    CameraSystem
        .run(&world.cameras, &mut world.transforms, &world.renderers, &second, layout, &mut gpu)
        .unwrap();
    let second_bind = world.transforms.get(Entity { id: 0 }).unwrap().bind.unwrap();
    let second_words = uploaded(&gpu, second_bind);

    assert_eq!(first, second);
    assert_eq!(first_words, second_words);
    assert_eq!(first_words.len(), 16);
    let flat: Vec<u32> = first[0].iter().flatten().copied().collect();
    assert_eq!(first_words, flat);

    // The origin lies ten units in front of the camera, in the middle of the picture.
    let column = first[0][3].map(f32::from_bits);
    assert_eq!(column[0], 0.0);
    assert_eq!(column[1], 0.0);
    assert_eq!(column[3], 10.0);
    assert!(column[2] > 0.0 && column[2] < 10.0);
}
