use grt::assets::{
    assemble, assemble_mesh, is_tame, load_model, AssetErrorKind, AssetLoadError, ImportedMaterial,
    ImportedMesh, ImportedModel,
};
use grt::components::rendering::{DiffuseMaterial, Mesh, ModelFile, Renderer, Vertex};
use grt::gpu::{Buffer, Command, Gpu, Handle};
use grt::material_manager::MaterialManager;
use grt::store::{Entity, Storage};
use grt::systems::model_builder::{Loaded, ModelBuilderSystem};
use std::cell::Cell;

const SCENE_OBJ: &str = "\
mtllib scene.mtl
o first
v 0 0 0
v 1 0 0
v 0 1 0
v 1 1 0
vt 0 0
vt 1 0
vt 0 1
vt 1 1
vn 0 0 1
usemtl red
f 1/1/1 2/2/1 3/3/1
o second
usemtl green
f 1/1/1 2/2/1 4/4/1 3/3/1
";

const SCENE_MTL: &str = "\
newmtl red
Kd 1 0 0
map_Kd red.png
newmtl green
Kd 0 1 0
map_Kd green.png
";

const PLAIN_OBJ: &str = "\
v 0 0 0
v 1 0 0
v 0 1 0
vt 0.5 0.25
f 1/1 2/1 3/1
";

const BARE_OBJ: &str = "\
v 0 0 0
v 1 0 0
v 0 1 0
f 1 2 3
";

fn files(path: &String) -> Option<Vec<u8>> {
    match path.as_str() {
        "scene.obj" => Some(SCENE_OBJ.as_bytes().to_vec()),
        "scene.mtl" => Some(SCENE_MTL.as_bytes().to_vec()),
        "plain.obj" => Some(PLAIN_OBJ.as_bytes().to_vec()),
        "bare.obj" => Some(BARE_OBJ.as_bytes().to_vec()),
        "orphan.obj" => Some("mtllib nowhere.mtl\nv 0 0 0\n".as_bytes().to_vec()),
        "broken.obj" => Some("v 1 2\n".as_bytes().to_vec()),
        "badlib.obj" => Some("mtllib bad.mtl\nv 0 0 0\n".as_bytes().to_vec()),
        "bad.mtl" => Some("newmtl\n".as_bytes().to_vec()),
        _ => None,
    }
}

fn bits(values: &[f32]) -> Vec<u32> {
    values.iter().map(|x| x.to_bits()).collect()
}

fn numbers(values: [u32; 3]) -> [f32; 3] {
    values.map(f32::from_bits)
}

#[test]
fn a_file_with_two_meshes_and_two_materials_loads_as_such() {
    let model = load_model(&"scene.obj".to_string(), &files).unwrap();
    assert_eq!(model.meshes.len(), 2);
    assert_eq!(model.materials.len(), 2);
    assert_eq!(model.meshes[0].name, "first");
    assert_eq!(model.meshes[1].name, "second");
    assert_eq!(model.meshes[0].material_id, Some(0));
    assert_eq!(model.meshes[1].material_id, Some(1));
    assert_eq!(
        model.materials,
        vec![
            ImportedMaterial { name: "red".to_string(), diffuse_texture: "red.png".to_string() },
            ImportedMaterial {
                name: "green".to_string(),
                diffuse_texture: "green.png".to_string()
            },
        ]
    );
    assert_eq!(
        model.meshes[0].positions,
        bits(&[0.0, 0.0, 0.0, 1.0, 0.0, 0.0, 0.0, 1.0, 0.0])
    );
    assert_eq!(model.meshes[0].texcoords, bits(&[0.0, 0.0, 1.0, 0.0, 0.0, 1.0]));
    assert_eq!(
        model.meshes[0].normals,
        bits(&[0.0, 0.0, 1.0, 0.0, 0.0, 1.0, 0.0, 0.0, 1.0])
    );
    assert_eq!(model.meshes[0].indices, vec![0, 1, 2]);
}

#[test]
fn a_quad_is_made_two_triangles() {
    let model = load_model(&"scene.obj".to_string(), &files).unwrap();
    assert_eq!(model.meshes[1].indices, vec![0, 1, 2, 0, 2, 3]);
    assert_eq!(model.meshes[1].positions.len(), 12);
    assert_eq!(model.meshes[1].texcoords.len(), 8);
}

#[test]
fn a_file_that_is_not_there_is_missing() {
    assert_eq!(
        load_model(&"nothing.obj".to_string(), &files),
        Err(AssetLoadError { path: "nothing.obj".to_string(), kind: AssetErrorKind::Missing })
    );
}

#[test]
fn a_file_that_does_not_parse_is_malformed() {
    assert_eq!(
        load_model(&"broken.obj".to_string(), &files),
        Err(AssetLoadError { path: "broken.obj".to_string(), kind: AssetErrorKind::Malformed })
    );
}

#[test]
fn a_library_that_is_not_there_fails_the_model() {
    assert_eq!(
        load_model(&"orphan.obj".to_string(), &files),
        Err(AssetLoadError { path: "orphan.obj".to_string(), kind: AssetErrorKind::Library })
    );
}

#[test]
fn a_library_that_does_not_parse_fails_the_model() {
    assert_eq!(
        load_model(&"badlib.obj".to_string(), &files),
        Err(AssetLoadError { path: "badlib.obj".to_string(), kind: AssetErrorKind::Library })
    );
}

#[test]
fn a_file_without_library_has_no_materials() {
    let model = load_model(&"plain.obj".to_string(), &files).unwrap();
    assert_eq!(model.meshes.len(), 1);
    assert_eq!(model.materials, vec![]);
    assert_eq!(model.meshes[0].material_id, None);
    assert_eq!(model.meshes[0].name, "unnamed_object");
}

#[test]
fn assemble_yields_a_mesh_for_each_mesh_and_a_material_for_each_material() {
    let model = load_model(&"scene.obj".to_string(), &files).unwrap();
    let renderer = assemble(&model, &"scene.obj".to_string()).unwrap();
    assert_eq!(renderer.meshes.len(), 2);
    assert_eq!(renderer.materials.len(), 2);
    assert_eq!(renderer.meshes[0].material, 0);
    assert_eq!(renderer.meshes[1].material, 1);
    for mesh in renderer.meshes.iter() {
        assert!(mesh.material < renderer.materials.len());
        assert_eq!(mesh.name, "scene.obj");
        assert_eq!(mesh.vertex_buffer, None);
        assert_eq!(mesh.index_buffer, None);
        assert_eq!(mesh.num_elements, 0);
    }
    assert_eq!(
        renderer.materials,
        vec![
            DiffuseMaterial {
                name: "red".to_string(),
                diffuse_texture: "red.png".to_string(),
                diffuse_bind: None
            },
            DiffuseMaterial {
                name: "green".to_string(),
                diffuse_texture: "green.png".to_string(),
                diffuse_bind: None
            },
        ]
    );
    assert_eq!(renderer.meshes[0].indices, vec![0, 1, 2]);
    assert_eq!(renderer.meshes[0].vertices.len(), 3);
    assert_eq!(renderer.meshes[1].vertices.len(), 4);
    let second = renderer.meshes[0].vertices[1];
    assert_eq!(numbers(second.position), [1.0, 0.0, 0.0]);
    assert_eq!(second.tex_coords.map(f32::from_bits), [1.0, 0.0]);
    assert_eq!(numbers(second.normal), [0.0, 0.0, 1.0]);
}

#[test]
fn a_mesh_that_names_no_material_gets_material_zero() {
    let model = load_model(&"plain.obj".to_string(), &files).unwrap();
    let renderer = assemble(&model, &"plain.obj".to_string()).unwrap();
    assert_eq!(renderer.meshes.len(), 1);
    assert_eq!(renderer.materials.len(), 0);
    assert_eq!(renderer.meshes[0].material, 0);
}

#[test]
fn a_vertex_without_normal_gets_a_zero_normal() {
    let model = load_model(&"plain.obj".to_string(), &files).unwrap();
    assert_eq!(model.meshes[0].normals, vec![]);
    let renderer = assemble(&model, &"plain.obj".to_string()).unwrap();
    assert_eq!(renderer.meshes[0].vertices.len(), 3);
    for vertex in renderer.meshes[0].vertices.iter() {
        assert_eq!(numbers(vertex.normal), [0.0, 0.0, 0.0]);
        assert_eq!(vertex.tex_coords.map(f32::from_bits), [0.5, 0.25]);
    }
    assert_eq!(numbers(renderer.meshes[0].vertices[2].position), [0.0, 1.0, 0.0]);
}

#[test]
fn a_mesh_without_texture_coordinates_is_incomplete() {
    let model = load_model(&"bare.obj".to_string(), &files).unwrap();
    assert_eq!(assemble(&model, &"bare.obj".to_string()), Err(AssetErrorKind::Incomplete));
}

fn imported(positions: usize, texcoords: usize, material_id: Option<usize>) -> ImportedMesh {
    ImportedMesh {
        name: "m".to_string(),
        positions: (0..positions as u32).collect(),
        normals: vec![],
        texcoords: (100..100 + texcoords as u32).collect(),
        indices: vec![0, 0, 0],
        material_id,
    }
}

#[test]
fn assemble_mesh_cuts_the_lists_into_vertices() {
    let mut source = imported(7, 4, Some(1));
    source.normals = vec![50, 51, 52, 53];
    let mesh = assemble_mesh(&source, &"file".to_string(), 2).unwrap();
    assert_eq!(
        mesh,
        Mesh {
            name: "file".to_string(),
            vertices: vec![
                Vertex { position: [0, 1, 2], tex_coords: [100, 101], normal: [50, 51, 52] },
                Vertex { position: [3, 4, 5], tex_coords: [102, 103], normal: [0, 0, 0] },
            ],
            indices: vec![0, 0, 0],
            vertex_buffer: None,
            index_buffer: None,
            num_elements: 0,
            material: 1,
        }
    );
}

#[test]
fn a_material_that_is_not_there_is_a_fault() {
    assert_eq!(
        assemble_mesh(&imported(3, 2, Some(2)), &"file".to_string(), 2),
        Err(AssetErrorKind::Material)
    );
    assert_eq!(
        assemble_mesh(&imported(3, 2, Some(0)), &"file".to_string(), 0),
        Err(AssetErrorKind::Material)
    );
    assert!(assemble_mesh(&imported(3, 2, None), &"file".to_string(), 0).is_ok());
}

#[test]
fn the_missing_material_is_reported_before_the_missing_coordinates() {
    assert_eq!(
        assemble_mesh(&imported(3, 1, Some(5)), &"file".to_string(), 2),
        Err(AssetErrorKind::Material)
    );
    assert_eq!(
        assemble_mesh(&imported(3, 1, Some(1)), &"file".to_string(), 2),
        Err(AssetErrorKind::Incomplete)
    );
}

#[test]
fn assemble_fails_on_the_first_mesh_with_a_fault() {
    let model = ImportedModel {
        meshes: vec![imported(3, 2, None), imported(3, 0, None), imported(3, 2, Some(9))],
        materials: vec![],
    };
    assert_eq!(assemble(&model, &"file".to_string()), Err(AssetErrorKind::Incomplete));
}

#[test]
fn an_empty_model_assembles_to_an_empty_renderer() {
    let model = ImportedModel { meshes: vec![], materials: vec![] };
    assert_eq!(assemble(&model, &"file".to_string()), Ok(Renderer::default()));
}

fn world(paths: &[(usize, &str)]) -> (Storage<ModelFile>, Storage<Renderer>) {
    let mut models = Storage::new();
    let mut renderers = Storage::new();
    for (id, path) in paths {
        models.insert(Entity { id: *id }, ModelFile { file: path.to_string() });
        renderers.insert(Entity { id: *id }, Renderer::default());
    }
    (models, renderers)
}

const QUAD_OBJ: &str = "\
mtllib quad.mtl
v 0 0 0
v 1 0 0
v 1 1 0
v 0 1 0
vt 0 0
vt 1 0
vt 1 1
vt 0 1
vn 0 0 1
usemtl m
f 1/1/1 2/2/1 3/3/1 4/4/1
";

const SWAPPED_OBJ: &str = "\
mtllib swapped.mtl
o a
v 0 0 0
v 1 0 0
v 0 1 0
vt 0 0
vt 1 0
vt 0 1
vn 0 0 1
usemtl B
f 1/1/1 2/2/1 3/3/1
o b
v 0 0 1
v 1 0 1
v 0 1 1
vt 0 0
vt 1 0
vt 0 1
vn 0 0 1
usemtl A
f 4/4/2 5/5/2 6/6/2
";

const RELATIVE_OBJ: &str = "\
v 0 0 0
v 1 0 0
v 0 1 0
vt 0 0
vt 1 0
vt 0 1
vn 0 0 1
f -3/-3/-1 -2/-2/-1 -1/-1/-1
";

fn png(seed: u8) -> Vec<u8> {
    let img = image::DynamicImage::ImageRgba8(
        image::RgbaImage::from_raw(1, 1, vec![seed, seed, seed, 255]).unwrap(),
    );
    let mut bytes = Vec::new();
    img.write_to(&mut std::io::Cursor::new(&mut bytes), image::ImageOutputFormat::Png).unwrap();
    bytes
}

fn assets(path: &String) -> Option<Vec<u8>> {
    match path.as_str() {
        "red.png" => Some(png(1)),
        "green.png" => Some(png(2)),
        "m.png" => Some(png(3)),
        "quad.obj" => Some(QUAD_OBJ.as_bytes().to_vec()),
        "quad.mtl" => Some("newmtl m\nmap_Kd m.png\n".as_bytes().to_vec()),
        "swapped.obj" => Some(SWAPPED_OBJ.as_bytes().to_vec()),
        "swapped.mtl" => {
            Some("newmtl A\nmap_Kd red.png\nnewmtl B\nmap_Kd green.png\n".as_bytes().to_vec())
        }
        "relative.obj" => Some(RELATIVE_OBJ.as_bytes().to_vec()),
        "untextured.obj" => Some(QUAD_OBJ.replace("quad.mtl", "untextured.mtl").into_bytes()),
        "untextured.mtl" => Some("newmtl m\nmap_Kd lost.png\n".as_bytes().to_vec()),
        _ => files(path),
    }
}

fn stage(
    models: &Storage<ModelFile>,
    renderers: &mut Storage<Renderer>,
    gpu: &mut Gpu,
) -> Result<Vec<Loaded>, AssetLoadError> {
    let mut manager = MaterialManager::new(gpu);
    ModelBuilderSystem.run(models, renderers, &mut manager, &assets, gpu)
}

fn created(gpu: &Gpu, buffer: Buffer) -> Vec<u32> {
    match gpu.command(buffer.handle.index) {
        Command::CreateBuffer { contents, .. } => {
            assert_eq!(contents.len(), buffer.len);
            contents.clone()
        }
        other => panic!("{:?}", other),
    }
}

#[test]
fn a_quad_with_one_material_is_loaded_bound_and_built() {
    let (models, mut renderers) = world(&[(0, "quad.obj")]);
    let mut gpu = Gpu::new();
    assert_eq!(
        stage(&models, &mut renderers, &mut gpu),
        Ok(vec![Loaded { entity: Entity { id: 0 }, meshes: 1, materials: 1 }])
    );
    let renderer = renderers.get(Entity { id: 0 }).unwrap();
    assert_eq!(renderer.meshes.len(), 1);
    assert_eq!(renderer.materials.len(), 1);
    let mesh = &renderer.meshes[0];
    assert_eq!(mesh.num_elements, 6);
    assert_eq!(mesh.material, 0);
    assert!(!mesh.is_stale());
    let vertices = created(&gpu, mesh.vertex_buffer.unwrap());
    assert_eq!(vertices.len(), 4 * 8);
    assert_eq!(vertices, grt::components::rendering::flatten(&mesh.vertices));
    assert_eq!(created(&gpu, mesh.index_buffer.unwrap()), vec![0, 1, 2, 0, 2, 3]);
    assert_eq!(renderer.materials[0].name, "m");
    let bind = renderer.materials[0].diffuse_bind.unwrap();
    assert!(matches!(gpu.command(bind.index), Command::CreateBindGroup { .. }));
}

#[test]
fn meshes_keep_the_order_of_the_file_and_name_their_materials() {
    let (models, mut renderers) = world(&[(0, "swapped.obj")]);
    let mut gpu = Gpu::new();
    assert_eq!(
        stage(&models, &mut renderers, &mut gpu),
        Ok(vec![Loaded { entity: Entity { id: 0 }, meshes: 2, materials: 2 }])
    );
    let renderer = renderers.get(Entity { id: 0 }).unwrap();
    assert_eq!(renderer.meshes[0].material, 1);
    assert_eq!(renderer.meshes[1].material, 0);
    assert_eq!(renderer.meshes[0].num_elements, 3);
    assert_eq!(renderer.meshes[1].num_elements, 3);
    assert_eq!(renderer.materials[0].name, "A");
    assert_eq!(renderer.materials[1].name, "B");
    for mesh in renderer.meshes.iter() {
        assert!(mesh.vertex_buffer.is_some() && mesh.index_buffer.is_some());
        assert!(mesh.material < renderer.materials.len());
    }
    for material in renderer.materials.iter() {
        assert!(material.diffuse_bind.is_some());
    }
    assert_eq!(
        renderer.meshes[1].vertices[0].position.map(f32::from_bits),
        [0.0, 0.0, 1.0]
    );
}

#[test]
fn a_mesh_without_normals_is_built_with_all_its_indices() {
    let (models, mut renderers) = world(&[(0, "plain.obj")]);
    let mut gpu = Gpu::new();
    assert_eq!(
        stage(&models, &mut renderers, &mut gpu),
        Ok(vec![Loaded { entity: Entity { id: 0 }, meshes: 1, materials: 0 }])
    );
    let mesh = &renderers.get(Entity { id: 0 }).unwrap().meshes[0];
    assert_eq!(mesh.vertices.len(), 3);
    assert_eq!(mesh.num_elements as usize, mesh.indices.len());
    assert_eq!(mesh.vertex_buffer.unwrap().len, 24);
    assert_eq!(mesh.index_buffer.unwrap().len, 3);
}

#[test]
fn indices_that_count_back_from_the_end_are_taken() {
    let (models, mut renderers) = world(&[(0, "relative.obj")]);
    let mut gpu = Gpu::new();
    assert_eq!(
        stage(&models, &mut renderers, &mut gpu),
        Ok(vec![Loaded { entity: Entity { id: 0 }, meshes: 1, materials: 0 }])
    );
    let mesh = &renderers.get(Entity { id: 0 }).unwrap().meshes[0];
    assert_eq!(mesh.indices, vec![0, 1, 2]);
    assert_eq!(mesh.vertices.len(), 3);
    assert_eq!(mesh.vertices[1].position.map(f32::from_bits), [1.0, 0.0, 0.0]);
    assert_eq!(mesh.vertices[2].tex_coords.map(f32::from_bits), [0.0, 1.0]);
    assert_eq!(mesh.vertices[0].normal.map(f32::from_bits), [0.0, 0.0, 1.0]);
}

#[test]
fn the_stage_loads_the_file_of_every_entity_that_has_nothing_to_draw() {
    let (models, mut renderers) = world(&[(0, "scene.obj"), (2, "plain.obj")]);
    let mut gpu = Gpu::new();
    assert_eq!(
        stage(&models, &mut renderers, &mut gpu),
        Ok(vec![
            Loaded { entity: Entity { id: 0 }, meshes: 2, materials: 2 },
            Loaded { entity: Entity { id: 2 }, meshes: 1, materials: 0 },
        ])
    );
    assert_eq!(renderers.get(Entity { id: 2 }).unwrap().meshes.len(), 1);
    assert_eq!(renderers.get(Entity { id: 2 }).unwrap().materials.len(), 0);
    let renderer = renderers.get(Entity { id: 0 }).unwrap();
    assert_eq!(renderer.meshes.len(), 2);
    assert_eq!(renderer.materials.len(), 2);
    assert!(renderer.meshes.iter().all(|mesh| !mesh.is_stale()));
    assert!(renderer.materials.iter().all(|material| material.diffuse_bind.is_some()));
    assert!(renderers.get(Entity { id: 1 }).is_none());
    // two layouts, two textures of four commands and two bind groups, six buffers
    assert_eq!(gpu.len(), 2 + 2 * 4 + 2 + 6);
}

#[test]
fn the_stage_reads_nothing_for_a_renderer_that_has_meshes() {
    let (models, mut renderers) = world(&[(0, "scene.obj")]);
    let mut gpu = Gpu::new();
    let mut manager = MaterialManager::new(&mut gpu);
    let reads = Cell::new(0);
    let counting = |path: &String| {
        reads.set(reads.get() + 1);
        assets(path)
    };
    assert_eq!(
        ModelBuilderSystem.run(&models, &mut renderers, &mut manager, &counting, &mut gpu),
        Ok(vec![Loaded { entity: Entity { id: 0 }, meshes: 2, materials: 2 }])
    );
    assert_eq!(reads.get(), 4);
    let loaded = renderers.get(Entity { id: 0 }).unwrap().clone();
    let commands = gpu.len();
    assert_eq!(
        ModelBuilderSystem.run(&models, &mut renderers, &mut manager, &counting, &mut gpu),
        Ok(vec![])
    );
    assert_eq!(reads.get(), 4);
    assert_eq!(renderers.get(Entity { id: 0 }).unwrap(), &loaded);
    assert_eq!(gpu.len(), commands);
}

#[test]
fn the_stage_leaves_entities_without_model_or_renderer_alone() {
    let mut models = Storage::new();
    let mut renderers = Storage::new();
    models.insert(Entity { id: 0 }, ModelFile { file: "nothing.obj".to_string() });
    renderers.insert(Entity { id: 1 }, Renderer::default());
    models.insert(Entity { id: 5 }, ModelFile { file: "nothing.obj".to_string() });
    let mut gpu = Gpu::new();
    assert_eq!(stage(&models, &mut renderers, &mut gpu), Ok(vec![]));
    assert_eq!(renderers.get(Entity { id: 1 }), Some(&Renderer::default()));
    assert_eq!(renderers.len(), 2);
    assert_eq!(gpu.len(), 2);
}

#[test]
fn the_first_file_that_fails_ends_the_cycle() {
    let (models, mut renderers) =
        world(&[(0, "scene.obj"), (1, "nothing.obj"), (2, "scene.obj")]);
    let mut gpu = Gpu::new();
    assert_eq!(
        stage(&models, &mut renderers, &mut gpu),
        Err(AssetLoadError { path: "nothing.obj".to_string(), kind: AssetErrorKind::Missing })
    );
    assert_eq!(renderers.get(Entity { id: 0 }).unwrap().meshes.len(), 2);
    assert_eq!(renderers.get(Entity { id: 1 }), Some(&Renderer::default()));
    assert_eq!(renderers.get(Entity { id: 2 }), Some(&Renderer::default()));
}

#[test]
fn a_file_that_cannot_be_assembled_fails_with_the_reason() {
    let (models, mut renderers) = world(&[(0, "bare.obj")]);
    let mut gpu = Gpu::new();
    assert_eq!(
        stage(&models, &mut renderers, &mut gpu),
        Err(AssetLoadError { path: "bare.obj".to_string(), kind: AssetErrorKind::Incomplete })
    );
    assert_eq!(renderers.get(Entity { id: 0 }), Some(&Renderer::default()));
    assert_eq!(gpu.len(), 2);
}

#[test]
fn a_texture_that_cannot_be_loaded_fails_the_model_and_leaves_the_renderer_empty() {
    let (models, mut renderers) = world(&[(0, "quad.obj"), (1, "untextured.obj")]);
    let mut gpu = Gpu::new();
    assert_eq!(
        stage(&models, &mut renderers, &mut gpu),
        Err(AssetLoadError { path: "lost.png".to_string(), kind: AssetErrorKind::Missing })
    );
    assert_eq!(renderers.get(Entity { id: 1 }), Some(&Renderer::default()));
    let earlier = renderers.get(Entity { id: 0 }).unwrap();
    assert_eq!(earlier.meshes.len(), 1);
    assert!(earlier.materials[0].diffuse_bind.is_some());
    assert!(!earlier.meshes[0].is_stale());
}

#[test]
fn what_was_built_for_a_replaced_renderer_is_released() {
    let (models, mut renderers) = world(&[(0, "scene.obj")]);
    let stale = Renderer {
        meshes: vec![],
        materials: vec![
            DiffuseMaterial {
                name: "a".to_string(),
                diffuse_texture: "a.png".to_string(),
                diffuse_bind: Some(Handle { batch: 7, index: 3 }),
            },
            DiffuseMaterial {
                name: "b".to_string(),
                diffuse_texture: "b.png".to_string(),
                diffuse_bind: Some(Handle { batch: 7, index: 4 }),
            },
        ],
    };
    renderers.insert(Entity { id: 0 }, stale);
    let mut gpu = Gpu::new();
    assert_eq!(
        stage(&models, &mut renderers, &mut gpu),
        Ok(vec![Loaded { entity: Entity { id: 0 }, meshes: 2, materials: 2 }])
    );
    let commands = gpu.take().unwrap();
    assert_eq!(
        commands[commands.len() - 2..].to_vec(),
        vec![
            Command::Release { handle: Handle { batch: 7, index: 3 } },
            Command::Release { handle: Handle { batch: 7, index: 4 } },
        ]
    );
    assert_eq!(renderers.get(Entity { id: 0 }).unwrap().meshes.len(), 2);
}

#[test]
fn a_model_without_materials_is_loaded_once() {
    let (models, mut renderers) = world(&[(0, "plain.obj")]);
    let mut gpu = Gpu::new();
    let mut manager = MaterialManager::new(&mut gpu);
    let reads = Cell::new(0);
    let counting = |path: &String| {
        reads.set(reads.get() + 1);
        assets(path)
    };
    assert_eq!(
        ModelBuilderSystem.run(&models, &mut renderers, &mut manager, &counting, &mut gpu),
        Ok(vec![Loaded { entity: Entity { id: 0 }, meshes: 1, materials: 0 }])
    );
    assert_eq!(reads.get(), 1);
    let built = renderers.get(Entity { id: 0 }).unwrap().clone();
    let commands = gpu.len();
    assert_eq!(
        ModelBuilderSystem.run(&models, &mut renderers, &mut manager, &counting, &mut gpu),
        Ok(vec![])
    );
    assert_eq!(reads.get(), 1);
    assert_eq!(gpu.len(), commands);
    assert_eq!(renderers.get(Entity { id: 0 }), Some(&built));
}

#[test]
fn prepare_builds_a_renderer_of_its_own() {
    let model = load_model(&"scene.obj".to_string(), &assets).unwrap();
    let mut gpu = Gpu::new();
    let mut manager = MaterialManager::new(&mut gpu);
    let renderer = ModelBuilderSystem::prepare(
        &model,
        &"scene.obj".to_string(),
        &mut manager,
        &assets,
        &mut gpu,
    )
    .unwrap();
    let plain = assemble(&model, &"scene.obj".to_string()).unwrap();
    assert_eq!(renderer.meshes.len(), plain.meshes.len());
    for (mesh, source) in renderer.meshes.iter().zip(plain.meshes.iter()) {
        assert_eq!(mesh.vertices, source.vertices);
        assert_eq!(mesh.indices, source.indices);
        assert_eq!(mesh.material, source.material);
        assert_eq!(mesh.num_elements as usize, source.indices.len());
        assert_eq!(created(&gpu, mesh.index_buffer.unwrap()), source.indices);
    }
    assert!(renderer.materials.iter().all(|material| material.diffuse_bind.is_some()));
}

#[test]
fn prepare_gives_back_the_bind_groups_of_a_model_that_fails() {
    let model = ImportedModel {
        meshes: vec![],
        materials: vec![
            ImportedMaterial { name: "a".to_string(), diffuse_texture: "red.png".to_string() },
            ImportedMaterial { name: "b".to_string(), diffuse_texture: "lost.png".to_string() },
        ],
    };
    let mut gpu = Gpu::new();
    let mut manager = MaterialManager::new(&mut gpu);
    assert_eq!(
        ModelBuilderSystem::prepare(&model, &"file".to_string(), &mut manager, &assets, &mut gpu),
        Err(AssetLoadError { path: "lost.png".to_string(), kind: AssetErrorKind::Missing })
    );
    let commands = gpu.take().unwrap();
    // two layouts, one texture of four commands, its bind group, and its release
    assert_eq!(commands.len(), 2 + 4 + 1 + 1);
    assert_eq!(commands[7], Command::Release { handle: Handle { batch: 0, index: 6 } });
}

#[test]
fn prepare_fails_on_a_model_with_a_fault_before_anything_is_built() {
    let model = load_model(&"bare.obj".to_string(), &assets).unwrap();
    let mut gpu = Gpu::new();
    let mut manager = MaterialManager::new(&mut gpu);
    assert_eq!(
        ModelBuilderSystem::prepare(
            &model,
            &"bare.obj".to_string(),
            &mut manager,
            &assets,
            &mut gpu
        ),
        Err(AssetLoadError { path: "bare.obj".to_string(), kind: AssetErrorKind::Incomplete })
    );
    assert_eq!(gpu.len(), 2);
}

#[test]
fn install_puts_the_renderer_where_the_old_one_was() {
    let (_, mut renderers) = world(&[(0, "scene.obj"), (1, "scene.obj")]);
    let model = load_model(&"plain.obj".to_string(), &assets).unwrap();
    let renderer = assemble(&model, &"plain.obj".to_string()).unwrap();
    let mut gpu = Gpu::new();
    let report =
        ModelBuilderSystem::install(&mut renderers, Entity { id: 1 }, renderer.clone(), &mut gpu);
    assert_eq!(report, Loaded { entity: Entity { id: 1 }, meshes: 1, materials: 0 });
    assert_eq!(renderers.get(Entity { id: 1 }), Some(&renderer));
    assert_eq!(renderers.get(Entity { id: 0 }), Some(&Renderer::default()));
    assert_eq!(gpu.len(), 0);
}

fn tame(text: &str) -> bool {
    is_tame(&text.as_bytes().to_vec())
}

#[test]
fn faces_with_indices_that_can_be_computed_with_are_tame() {
    assert!(tame(""));
    assert!(tame(SCENE_OBJ));
    assert!(tame(PLAIN_OBJ));
    assert!(tame(RELATIVE_OBJ));
    assert!(tame("v -1.5 2e-3 -0\nvn 0 -1 0\nf 1/2/3 4//5 6\n"));
    assert!(tame("# f -1\nusemtl a-b\ng left-hand\n"));
    assert!(tame("f -3 -2 -1\n"));
    assert!(tame("f -99999999999999999999 1 1\nv 0.1234567890123456789012345\n") == false);
    assert!(tame("v 0.1234567890123456789012345\n"));
    assert!(tame("vt 0 0\nvt 1 1\nvn 0 0 1\nf 1/-2/-1 1/-1/-1 1/2/1\n"));
    assert!(tame("vn 0 0 1\r\nvn 0 1 0\r\nl 1//-2 2//-1\r\n"));
    let third = usize::MAX / 3;
    assert!(tame(&format!("f 1/1/{} 1 1\n", third)));
}

#[test]
fn faces_with_indices_that_are_too_large_or_reach_before_the_start_are_not_tame() {
    let third = usize::MAX / 3;
    assert!(!tame(&format!("f 1/1/{} 1 1\n", third + 1)));
    assert!(!tame(&format!("f {} 1 1\n", usize::MAX)));
    assert!(!tame("f 1/1/99999999999999999999999999 2 3\n"));
    assert!(!tame("v 0 0 0\nf 1/1/-4 1 1\n"));
    assert!(!tame("vt 0 0\nf 1/-2 1 1\n"));
    assert!(!tame("vn 0 0 1\nf 1//-2 1 1\n"));
    assert!(!tame("vt 0 0\nf 1/-1/-1 1 1\n"));
    assert!(!tame("  \tl 1/-1\n"));
    assert!(!tame("\u{a0}f 1/-1\n"));
    assert!(!tame("\u{a0}vt 0 0\nf 1/-1\n"));
    assert!(!tame("f 1/-1\nvt 0 0\n"));
}

#[test]
fn a_file_that_is_not_tame_is_malformed_and_is_not_parsed() {
    let wild = |path: &String| -> Option<Vec<u8>> {
        match path.as_str() {
            "wild.obj" => Some(
                "v 0 0 0\nvt 0 0\nvn 0 0 1\nf 1/1/-4 1/1/1 1/1/1\n".as_bytes().to_vec(),
            ),
            "huge.obj" => Some(
                format!("v 0 0 0\nvt 0 0\nvn 0 0 1\nf 1/1/{} 1/1/1 1/1/1\n", usize::MAX / 3 + 1)
                    .into_bytes(),
            ),
            _ => None,
        }
    };
    for path in ["wild.obj", "huge.obj"] {
        assert_eq!(
            load_model(&path.to_string(), &wild),
            Err(AssetLoadError { path: path.to_string(), kind: AssetErrorKind::Malformed })
        );
    }
}

#[test]
fn a_texture_that_the_registry_holds_is_not_read_again() {
    let (mut models, mut renderers) = world(&[(0, "quad.obj")]);
    let mut gpu = Gpu::new();
    let mut manager = MaterialManager::new(&mut gpu);
    assert!(ModelBuilderSystem
        .run(&models, &mut renderers, &mut manager, &assets, &mut gpu)
        .is_ok());
    models.insert(Entity { id: 1 }, ModelFile { file: "quad.obj".to_string() });
    renderers.insert(Entity { id: 1 }, Renderer::default());
    let without = |path: &String| -> Option<Vec<u8>> {
        if path == "m.png" {
            None
        } else {
            assets(path)
        }
    };
    assert_eq!(
        ModelBuilderSystem.run(&models, &mut renderers, &mut manager, &without, &mut gpu),
        Ok(vec![Loaded { entity: Entity { id: 1 }, meshes: 1, materials: 1 }])
    );
    let first = renderers.get(Entity { id: 0 }).unwrap().materials[0].diffuse_bind.unwrap();
    let second = renderers.get(Entity { id: 1 }).unwrap().materials[0].diffuse_bind.unwrap();
    assert_ne!(first, second);
    match (gpu.command(first.index), gpu.command(second.index)) {
        (
            Command::CreateBindGroup { entries: one, .. },
            Command::CreateBindGroup { entries: other, .. },
        ) => assert_eq!(one, other),
        other => panic!("{:?}", other),
    }
}
