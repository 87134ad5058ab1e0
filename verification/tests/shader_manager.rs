use grt::assets::{AssetErrorKind, AssetLoadError};
use grt::gpu::{Command, Gpu, Handle};
use grt::shader_manager::{ShaderInfo, ShaderManager};

fn files(path: &String) -> Option<Vec<u8>> {
    match path.as_str() {
        "flat.wgsl" => Some("flat source".as_bytes().to_vec()),
        "lit.wgsl" => Some("lit source".as_bytes().to_vec()),
        "binary.wgsl" => Some(vec![0xFF]),
        _ => None,
    }
}

fn info(first: usize) -> ShaderInfo {
    ShaderInfo {
        shader: Handle { batch: 0, index: first },
        layout: Handle { batch: 0, index: first + 1 },
        pipeline: Handle { batch: 0, index: first + 2 },
    }
}

#[test]
fn a_new_registry_holds_no_shader() {
    let manager = ShaderManager::new();
    assert!(!manager.contains(&"flat".to_string()));
}

#[test]
fn a_registered_shader_is_found_under_its_name() {
    let mut gpu = Gpu::new();
    let mut manager = ShaderManager::new();
    assert_eq!(manager.add_shader(&"flat".to_string(), &files, &mut gpu), Ok(()));
    assert_eq!(manager.add_shader(&"lit".to_string(), &files, &mut gpu), Ok(()));
    assert!(manager.contains(&"flat".to_string()));
    assert!(manager.contains(&"lit".to_string()));
    assert!(!manager.contains(&"other".to_string()));
    assert_eq!(manager.get_shader(&"flat".to_string()), &info(0));
    assert_eq!(manager.get_shader(&"lit".to_string()), &info(3));
    assert_eq!(
        gpu.command(0),
        &Command::CreateShaderModule {
            label: "flat".to_string(),
            source: "flat source".to_string()
        }
    );
    assert_eq!(
        gpu.command(1),
        &Command::CreatePipelineLayout {
            label: "flat Layout".to_string(),
            bind_group_layouts: vec![]
        }
    );
    assert_eq!(gpu.len(), 6);
}

#[test]
fn registering_a_name_again_replaces_the_shader() {
    let mut gpu = Gpu::new();
    let mut manager = ShaderManager::new();
    manager.add_shader(&"flat".to_string(), &files, &mut gpu).unwrap();
    manager.add_shader(&"lit".to_string(), &files, &mut gpu).unwrap();
    manager.add_shader(&"flat".to_string(), &files, &mut gpu).unwrap();
    assert_eq!(manager.get_shader(&"flat".to_string()), &info(6));
    assert_eq!(manager.get_shader(&"lit".to_string()), &info(3));
}

#[test]
fn a_shader_that_cannot_be_read_is_not_registered() {
    let mut gpu = Gpu::new();
    let mut manager = ShaderManager::new();
    assert_eq!(
        manager.add_shader(&"absent".to_string(), &files, &mut gpu),
        Err(AssetLoadError { path: "absent.wgsl".to_string(), kind: AssetErrorKind::Missing })
    );
    assert_eq!(
        manager.add_shader(&"binary".to_string(), &files, &mut gpu),
        Err(AssetLoadError { path: "binary.wgsl".to_string(), kind: AssetErrorKind::Malformed })
    );
    assert!(!manager.contains(&"absent".to_string()));
    assert!(!manager.contains(&"binary".to_string()));
    assert_eq!(gpu.len(), 0);
}
