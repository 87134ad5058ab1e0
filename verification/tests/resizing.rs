use grt::components::rendering::{Aspect, Camera};
use grt::gpu::{Command, Gpu};
use grt::store::{Entity, Storage};
use grt::systems::resizing::{PhysicalSize, Resize, ResizingSystem, SurfaceConfiguration};

fn cameras() -> Storage<Camera> {
    let mut cameras = Storage::new();
    cameras.insert(Entity { id: 1 }, Camera::default());
    let mut other = Camera::default();
    other.fovy = 60.0f32.to_bits();
    cameras.insert(Entity { id: 3 }, other);
    cameras
}

#[test]
fn the_same_size_reconfigures_nothing() {
    let mut cameras = cameras();
    let mut config = SurfaceConfiguration { width: 800, height: 600 };
    let mut gpu = Gpu::new();
    let outcome = ResizingSystem.run(
        &mut cameras,
        &mut config,
        &PhysicalSize { width: 800, height: 600 },
        &mut gpu,
    );
    assert_eq!(outcome, Resize::Unchanged);
    assert_eq!(gpu.len(), 0);
    assert_eq!(config, SurfaceConfiguration { width: 800, height: 600 });
    assert_eq!(cameras.get(Entity { id: 1 }).unwrap().aspect, Aspect { width: 1, height: 1 });
}

#[test]
fn a_new_size_reconfigures_once_and_reshapes_every_camera() {
    let mut cameras = cameras();
    let mut config = SurfaceConfiguration { width: 1, height: 1 };
    let mut gpu = Gpu::new();
    let outcome = ResizingSystem.run(
        &mut cameras,
        &mut config,
        &PhysicalSize { width: 1280, height: 720 },
        &mut gpu,
    );
    assert_eq!(outcome, Resize::Reconfigured);
    assert_eq!(gpu.take(), Some(vec![Command::ConfigureSurface { width: 1280, height: 720 }]));
    assert_eq!(config, SurfaceConfiguration { width: 1280, height: 720 });
    for id in [1usize, 3] {
        assert_eq!(
            cameras.get(Entity { id }).unwrap().aspect,
            Aspect { width: 1280, height: 720 }
        );
    }
    assert_eq!(cameras.get(Entity { id: 3 }).unwrap().fovy, 60.0f32.to_bits());
    assert_eq!(cameras.get(Entity { id: 1 }).unwrap().fovy, 45.0f32.to_bits());
    assert!(cameras.get(Entity { id: 0 }).is_none());
    assert!(cameras.get(Entity { id: 2 }).is_none());
}

#[test]
fn a_change_of_one_side_is_a_change() {
    let mut cameras = cameras();
    let mut config = SurfaceConfiguration { width: 800, height: 600 };
    let mut gpu = Gpu::new();
    let outcome = ResizingSystem.run(
        &mut cameras,
        &mut config,
        &PhysicalSize { width: 800, height: 601 },
        &mut gpu,
    );
    assert_eq!(outcome, Resize::Reconfigured);
    assert_eq!(gpu.len(), 1);
    assert_eq!(config, SurfaceConfiguration { width: 800, height: 601 });
}

#[test]
fn a_width_of_zero_is_rejected() {
    let mut cameras = cameras();
    let mut config = SurfaceConfiguration { width: 800, height: 600 };
    let mut gpu = Gpu::new();
    let outcome = ResizingSystem.run(
        &mut cameras,
        &mut config,
        &PhysicalSize { width: 0, height: 600 },
        &mut gpu,
    );
    assert_eq!(outcome, Resize::Rejected);
    assert_eq!(gpu.len(), 0);
    assert_eq!(config, SurfaceConfiguration { width: 800, height: 600 });
    assert_eq!(cameras.get(Entity { id: 1 }).unwrap().aspect, Aspect { width: 1, height: 1 });
}

#[test]
fn a_height_of_zero_is_rejected() {
    let mut cameras = cameras();
    let mut config = SurfaceConfiguration { width: 800, height: 600 };
    let mut gpu = Gpu::new();
    let outcome = ResizingSystem.run(
        &mut cameras,
        &mut config,
        &PhysicalSize { width: 1024, height: 0 },
        &mut gpu,
    );
    assert_eq!(outcome, Resize::Rejected);
    assert_eq!(gpu.len(), 0);
    assert_eq!(config, SurfaceConfiguration { width: 800, height: 600 });
}

#[test]
fn no_area_at_all_is_rejected_even_when_nothing_would_change() {
    let mut cameras = cameras();
    let mut config = SurfaceConfiguration { width: 0, height: 0 };
    let mut gpu = Gpu::new();
    let outcome = ResizingSystem.run(
        &mut cameras,
        &mut config,
        &PhysicalSize { width: 0, height: 0 },
        &mut gpu,
    );
    assert_eq!(outcome, Resize::Rejected);
    assert_eq!(gpu.len(), 0);
}
