//! The stage that loads model files and builds what they are drawn with.
use crate::assets::{
    assemble, describes_material, describes_mesh, describes_model, first_fault, imports,
    imports_material, imports_model, lemma_import_counts, load_model, model_loaded, read_gave,
    tame, vertex_count, AssetErrorKind, AssetLoadError, ImportedModel,
};
use crate::components::rendering::{
    scene, vertex_words, DiffuseMaterial, Mesh, ModelFile, Renderer, RendererView,
};
use crate::gpu::{extends, BufferUsage, CommandView, Gpu, GpuView};
use crate::material_manager::{
    failed_loading, grown_by_loading, lemma_grown_by_loading_chains, lemma_grown_by_loading_stays,
    lemma_texture_stays, MaterialManager, MaterialManagerView,
};
use crate::store::{slot, Entity, Storage};
use crate::systems::material_builder::{
    all_bound, bind_command, bound, bound_below, lemma_bound_below_stays, MaterialBuilderSystem,
};
use crate::systems::mesh_builder::{lemma_build_meshes, sized, up_to_date, MeshBuilderSystem};
use vstd::prelude::*;

verus! {

/// Loads the model file of every entity that has one and no mesh yet, and
/// builds the buffers and bind groups that the model is drawn with.
pub struct ModelBuilderSystem;

/// Entity `id` has a model file and a renderer without meshes: nothing was
/// loaded for it yet, and its file is to be loaded. Materials do not count:
/// a file may have none.
pub open spec fn awaits_import(
    models: Seq<Option<ModelFile>>,
    renderers: Seq<Option<RendererView>>,
    id: int,
) -> bool {
    &&& slot(models, id).is_some()
    &&& slot(renderers, id).is_some()
    &&& slot(renderers, id).unwrap().meshes.len() == 0
}

/// What the stage did for one entity: it loaded the file of `entity`, which
/// had `meshes` meshes and `materials` materials.
#[derive(Clone, Copy, PartialEq, Eq, Structural, Debug)]
pub struct Loaded {
    pub entity: Entity,
    pub meshes: usize,
    pub materials: usize,
}

/// The entities below `n` whose files are to be loaded, in rising order of
/// id.
pub open spec fn awaiting(
    models: Seq<Option<ModelFile>>,
    renderers: Seq<Option<RendererView>>,
    n: int,
) -> Seq<Entity>
    decreases n,
{
    if n <= 0 {
        Seq::empty()
    } else if awaits_import(models, renderers, n - 1) {
        awaiting(models, renderers, n - 1).push(Entity { id: (n - 1) as usize })
    } else {
        awaiting(models, renderers, n - 1)
    }
}

/// `loaded` tells of the entities `entities`, in order, and `renderers`
/// hold as many meshes and materials for each as it says.
pub open spec fn reports(
    loaded: Seq<Loaded>,
    entities: Seq<Entity>,
    renderers: Seq<Option<Renderer>>,
) -> bool {
    &&& loaded.len() == entities.len()
    &&& forall|k: int|
        0 <= k < loaded.len() ==> {
            let entry = #[trigger] loaded[k];
            let renderer = slot(renderers, entry.entity.id as int);
            &&& entry.entity == entities[k]
            &&& renderer.is_some()
            &&& entry.meshes == renderer.unwrap().meshes@.len()
            &&& entry.materials == renderer.unwrap().materials@.len()
        }
}

/// Everything that `renderer` is drawn with is built: every mesh fits a
/// draw call and has its buffers, as long as its description asks, and
/// every material has its bind group.
pub open spec fn ready(renderer: Renderer) -> bool {
    &&& forall|i: int|
        0 <= i < renderer.meshes@.len() ==> (#[trigger] renderer.meshes@[i]).wf() && sized(
            renderer.meshes@[i],
        )
    &&& all_bound(renderer.materials@, renderer.materials@.len() as int)
}

/// The buffers of `mesh` are on record in `ledger`: two buffers of the
/// batch of the ledger, the vertex buffer created with the words of the
/// vertices and the index buffer with the indices.
pub open spec fn mesh_recorded(mesh: Mesh, ledger: GpuView) -> bool {
    &&& mesh.vertex_buffer.is_some()
    &&& mesh.index_buffer.is_some()
    &&& {
        let vertex_buffer = mesh.vertex_buffer.unwrap();
        let index_buffer = mesh.index_buffer.unwrap();
        &&& vertex_buffer.handle != index_buffer.handle
        &&& ledger.knows(vertex_buffer.handle)
        &&& ledger.knows(index_buffer.handle)
        &&& vertex_buffer.handle.batch == ledger.batch
        &&& index_buffer.handle.batch == ledger.batch
        &&& ledger.commands[vertex_buffer.handle.index as int] == CommandView::CreateBuffer {
            label: mesh.vertex_label(),
            usage: BufferUsage::Vertex,
            contents: vertex_words(mesh.vertices@),
        }
        &&& ledger.commands[index_buffer.handle.index as int] == CommandView::CreateBuffer {
            label: mesh.index_label(),
            usage: BufferUsage::Index,
            contents: mesh.indices@,
        }
    }
}

/// The bind group of `material` is on record in `ledger`, and it binds the
/// texture that `manager` holds under the path of the material.
pub open spec fn bind_recorded(
    material: DiffuseMaterial,
    manager: MaterialManagerView,
    ledger: GpuView,
) -> bool {
    &&& material.diffuse_bind.is_some()
    &&& manager.texture(material.diffuse_texture@).is_some()
    &&& {
        let bind = material.diffuse_bind.unwrap();
        &&& ledger.knows(bind)
        &&& bind.batch == ledger.batch
        &&& ledger.commands[bind.index as int] == bind_command(
            manager.texture_bind_group_layout,
            manager.texture(material.diffuse_texture@).unwrap(),
        )
    }
}

/// Everything built for `renderer` is on record in `ledger`, the bind
/// groups with the textures of `manager`.
pub open spec fn recorded(renderer: Renderer, manager: MaterialManagerView, ledger: GpuView) -> bool {
    &&& forall|i: int|
        0 <= i < renderer.meshes@.len() ==> mesh_recorded(#[trigger] renderer.meshes@[i], ledger)
    &&& forall|i: int|
        0 <= i < renderer.materials@.len() ==> bind_recorded(
            #[trigger] renderer.materials@[i],
            manager,
            ledger,
        )
}

/// What is on record stays on record when the ledger and the registry
/// grow.
pub proof fn lemma_recorded_stays(
    renderer: Renderer,
    manager: MaterialManagerView,
    ledger: GpuView,
    later_manager: MaterialManagerView,
    later: GpuView,
)
    requires
        recorded(renderer, manager, ledger),
        manager.grows_to(later_manager),
        extends(ledger, later),
    ensures
        recorded(renderer, later_manager, later),
{
    assert forall|i: int| 0 <= i < renderer.materials@.len() implies bind_recorded(
        #[trigger] renderer.materials@[i],
        later_manager,
        later,
    ) by {
        assert(bind_recorded(renderer.materials@[i], manager, ledger));
        lemma_texture_stays(manager, later_manager, renderer.materials@[i].diffuse_texture@);
    }
    assert forall|i: int| 0 <= i < renderer.meshes@.len() implies mesh_recorded(
        #[trigger] renderer.meshes@[i],
        later,
    ) by {
        assert(mesh_recorded(renderer.meshes@[i], ledger));
    }
}

/// What is on record for the renderers below `n` whose files were to be
/// loaded stays on record when the ledger and the registry grow.
pub proof fn lemma_recorded_below_stays(
    models: Seq<Option<ModelFile>>,
    before: Seq<Option<Renderer>>,
    after: Seq<Option<Renderer>>,
    manager: MaterialManagerView,
    ledger: GpuView,
    later_manager: MaterialManagerView,
    later: GpuView,
    n: int,
)
    requires
        recorded_below(models, before, after, manager, ledger, n),
        manager.grows_to(later_manager),
        extends(ledger, later),
    ensures
        recorded_below(models, before, after, later_manager, later, n),
{
    assert forall|id: int|
        0 <= id < n && id < after.len() && awaits_import(models, scene(before), id) implies (
    #[trigger] after[id]).is_some() && recorded(after[id].unwrap(), later_manager, later) by {
        lemma_recorded_stays(after[id].unwrap(), manager, ledger, later_manager, later);
    }
}

/// `renderer` is the model `model`, loaded from `file`, with everything
/// built: it describes the model, mesh for mesh and material for material,
/// every mesh has its buffers and every material its bind group, and all
/// of these are on record in `ledger`.
pub open spec fn prepared(
    renderer: Renderer,
    model: ImportedModel,
    file: Seq<char>,
    manager: MaterialManagerView,
    ledger: GpuView,
) -> bool {
    &&& describes_model(renderer, model, file)
    &&& ready(renderer)
    &&& recorded(renderer, manager, ledger)
}

/// What the stage installs for a model file whose meshes can all be used:
/// a mesh for each mesh of the file and a material for each of its
/// materials. Every mesh has its buffers, the vertex buffer with eight
/// words for each vertex of the file and the index buffer with a word for
/// each index, and the number of indices on record; it names a material
/// that is there, or material 0 where the file names none. Every material
/// has its bind group.
pub proof fn lemma_import_is_complete(
    renderer: Renderer,
    model: ImportedModel,
    file: Seq<char>,
    manager: MaterialManagerView,
    ledger: GpuView,
)
    requires
        first_fault(model.meshes@, model.materials@.len() as int, model.meshes@.len() as int).is_none(),
        prepared(renderer, model, file, manager, ledger),
    ensures
        renderer.meshes@.len() == model.meshes@.len(),
        renderer.materials@.len() == model.materials@.len(),
        forall|i: int|
            0 <= i < renderer.meshes@.len() ==> {
                let mesh = #[trigger] renderer.meshes@[i];
                &&& !mesh.needs_rebuild()
                &&& mesh.vertex_buffer.unwrap().len == 8 * vertex_count(model.meshes@[i])
                &&& mesh.index_buffer.unwrap().len == model.meshes@[i].indices@.len()
                &&& mesh.num_elements == model.meshes@[i].indices@.len()
                &&& mesh.material == match model.meshes@[i].material_id {
                    Some(id) => id,
                    None => 0,
                }
                &&& model.meshes@[i].material_id.is_some() ==> mesh.material
                    < renderer.materials@.len()
            },
        forall|j: int|
            0 <= j < renderer.materials@.len() ==> {
                let material = #[trigger] renderer.materials@[j];
                &&& material.name@ == model.materials@[j].name@
                &&& material.diffuse_bind.is_some()
            },
{
    lemma_import_counts(renderer, model, file);
    assert forall|i: int| 0 <= i < renderer.meshes@.len() implies {
        let mesh = #[trigger] renderer.meshes@[i];
        &&& !mesh.needs_rebuild()
        &&& mesh.vertex_buffer.unwrap().len == 8 * vertex_count(model.meshes@[i])
        &&& mesh.index_buffer.unwrap().len == model.meshes@[i].indices@.len()
        &&& mesh.num_elements == model.meshes@[i].indices@.len()
        &&& mesh.material == match model.meshes@[i].material_id {
            Some(id) => id,
            None => 0,
        }
        &&& model.meshes@[i].material_id.is_some() ==> mesh.material < renderer.materials@.len()
    } by {
        assert(describes_mesh(renderer.meshes@[i], model.meshes@[i], file));
        assert(sized(renderer.meshes@[i]));
    }
    assert forall|j: int| 0 <= j < renderer.materials@.len() implies {
        let material = #[trigger] renderer.materials@[j];
        &&& material.name@ == model.materials@[j].name@
        &&& material.diffuse_bind.is_some()
    } by {
        assert(describes_material(renderer.materials@[j], model.materials@[j]));
    }
}

/// `renderer` is there and is what a model file yielded under the name
/// `file`, with everything built: a mesh for each of its meshes, with its
/// buffers, and a material for each of its materials, with its bind group.
pub open spec fn fresh_import(renderer: Option<Renderer>, file: Seq<char>) -> bool {
    &&& renderer.is_some()
    &&& ready(renderer.unwrap())
    &&& exists|model: ImportedModel| describes_model(renderer.unwrap(), model, file)
}

/// `after` are the renderers `before` when the stage has dealt with the
/// entities below `n`: the renderer of each of these whose file was to be
/// loaded is what the file yielded, with everything built, and every other
/// renderer is as it was.
pub open spec fn imported_below(
    models: Seq<Option<ModelFile>>,
    before: Seq<Option<Renderer>>,
    after: Seq<Option<Renderer>>,
    n: int,
) -> bool {
    &&& after.len() == before.len()
    &&& forall|id: int|
        0 <= id < before.len() ==> if id < n && awaits_import(models, scene(before), id) {
            fresh_import(#[trigger] after[id], models[id].unwrap().file@)
        } else {
            #[trigger] after[id] == before[id]
        }
}

/// What was built for the renderers below `n` whose files were to be
/// loaded is on record in `ledger`.
pub open spec fn recorded_below(
    models: Seq<Option<ModelFile>>,
    before: Seq<Option<Renderer>>,
    after: Seq<Option<Renderer>>,
    manager: MaterialManagerView,
    ledger: GpuView,
    n: int,
) -> bool {
    forall|id: int|
        0 <= id < n && id < after.len() && awaits_import(models, scene(before), id) ==> (
        #[trigger] after[id]).is_some() && recorded(after[id].unwrap(), manager, ledger)
}

/// The stage stopped at entity `id`, whose file was to be loaded: it had
/// dealt with the entities below `id`, and the renderer of `id` and of
/// every entity after it is as it was.
pub open spec fn stopped_at(
    models: Seq<Option<ModelFile>>,
    before: Seq<Option<Renderer>>,
    after: Seq<Option<Renderer>>,
    id: int,
) -> bool {
    &&& 0 <= id < before.len()
    &&& awaits_import(models, scene(before), id)
    &&& imported_below(models, before, after, id)
}

/// The first mesh of `model` that cannot be used cannot for the reason
/// `kind`.
pub open spec fn faulty(model: ImportedModel, kind: AssetErrorKind) -> bool {
    first_fault(model.meshes@, model.materials@.len() as int, model.meshes@.len() as int)
        matches Some(fault) && fault.1 == kind
}

/// `error` is an error that loading the model file `file` can come to
/// when the reader gave `found` for it. Where it gave nothing, that is the
/// error of kind `Missing`. Where it gave bytes, it is the error of kind
/// `Malformed`, or, for tame bytes, the error of kind `Library` or the
/// fault of a model that was parsed.
pub open spec fn import_fails(found: Option<Vec<u8>>, file: Seq<char>, error: AssetLoadError) -> bool {
    &&& error.path@ == file
    &&& match found {
        None => error.kind == AssetErrorKind::Missing,
        Some(bytes) => {
            ||| error.kind == AssetErrorKind::Malformed
            ||| tame(bytes@) && error.kind == AssetErrorKind::Library
            ||| tame(bytes@) && exists|model: ImportedModel| #[trigger] faulty(model, error.kind)
        },
    }
}

/// `error` is an error that making the model of the file `file` ready can
/// come to when the reader gave `found` for the file: an error of loading
/// the file, or, where the file was parsed, the error of loading one of
/// its textures, which the registry `registry` does not hold.
pub open spec fn model_fails<F: Fn(&String) -> Option<Vec<u8>>>(
    read: &F,
    found: Option<Vec<u8>>,
    file: Seq<char>,
    error: AssetLoadError,
    registry: MaterialManagerView,
) -> bool {
    ||| import_fails(found, file, error)
    ||| {
        &&& found.is_some()
        &&& tame(found.unwrap()@)
        &&& failed_loading(read, error)
        &&& registry.texture(error.path@).is_none()
    }
}

/// The model file `file` was read and handed to the parser: the reader
/// gave bytes for it, and the bytes are tame.
pub open spec fn was_parsed<F: Fn(&String) -> Option<Vec<u8>>>(read: &F, file: String) -> bool {
    exists|found: Option<Vec<u8>>|
        #[trigger] read_gave(read, &file, found) && found.is_some() && tame(found.unwrap()@)
}

/// The file of every entity below `n` whose file was to be loaded was read
/// and handed to the parser.
pub open spec fn parsed_below<F: Fn(&String) -> Option<Vec<u8>>>(
    read: &F,
    models: Seq<Option<ModelFile>>,
    renderers: Seq<Option<RendererView>>,
    n: int,
) -> bool {
    forall|id: int|
        0 <= id < n && #[trigger] awaits_import(models, renderers, id) ==> was_parsed(
            read,
            models[id].unwrap().file,
        )
}

/// No file is to be loaded for an entity below `n`.
pub open spec fn none_awaits_below(
    models: Seq<Option<ModelFile>>,
    renderers: Seq<Option<RendererView>>,
    n: int,
) -> bool {
    forall|id: int| 0 <= id < n ==> !awaits_import(models, renderers, id)
}

/// What was released for the renderer that stood where a model is
/// installed.
pub open spec fn replaced_releases(replaced: Option<Renderer>) -> Seq<CommandView> {
    match replaced {
        Some(renderer) => renderer@.releases(),
        None => Seq::empty(),
    }
}

/// No file is to be loaded for an entity at or above `n`.
pub open spec fn none_awaits_from(
    models: Seq<Option<ModelFile>>,
    renderers: Seq<Option<RendererView>>,
    n: int,
) -> bool {
    forall|id: int| n <= id ==> !awaits_import(models, renderers, id)
}

/// Where no file is to be loaded from `n` on, no entity from `n` on is
/// among those whose files are to be loaded.
pub proof fn lemma_awaiting_end(
    models: Seq<Option<ModelFile>>,
    renderers: Seq<Option<RendererView>>,
    n: int,
    m: int,
)
    requires
        0 <= n <= m,
        none_awaits_from(models, renderers, n),
    ensures
        awaiting(models, renderers, m) == awaiting(models, renderers, n),
    decreases m - n,
{
    if n < m {
        lemma_awaiting_end(models, renderers, n, m - 1);
        assert(!awaits_import(models, renderers, m - 1));
    }
}

/// The entities whose files are to be loaded have ids below the count.
pub proof fn lemma_awaiting_below(
    models: Seq<Option<ModelFile>>,
    renderers: Seq<Option<RendererView>>,
    n: int,
)
    requires
        0 <= n <= usize::MAX,
    ensures
        ({
            let entities = awaiting(models, renderers, n);
            forall|k: int| 0 <= k < entities.len() ==> (#[trigger] entities[k]).id < n
        }),
    decreases n,
{
    if n > 0 {
        lemma_awaiting_below(models, renderers, n - 1);
        let before = awaiting(models, renderers, n - 1);
        let now = awaiting(models, renderers, n);
        assert forall|k: int| 0 <= k < now.len() implies (#[trigger] now[k]).id < n by {
            if k < before.len() {
                assert(now[k] == before[k]);
            }
        }
    }
}

/// `done` is what making `model`, which was loaded from `file`, ready to be
/// drawn comes to, when the registry goes from `manager` to `later_manager`
/// and the ledger from `ledger` to `later`.
///
/// Where a mesh of the model cannot be used, it is the error of the first
/// such mesh, about `file`, and nothing has changed. Else it is the
/// renderer of the model with everything built and on record, or the error
/// of loading the texture of one of its materials, which the registry does
/// not hold.
pub open spec fn prepare_outcome<F: Fn(&String) -> Option<Vec<u8>>>(
    read: &F,
    model: ImportedModel,
    file: Seq<char>,
    manager: MaterialManagerView,
    later_manager: MaterialManagerView,
    ledger: GpuView,
    later: GpuView,
    done: Result<Renderer, AssetLoadError>,
) -> bool {
    match first_fault(
        model.meshes@,
        model.materials@.len() as int,
        model.meshes@.len() as int,
    ) {
        Some(fault) => {
            &&& done matches Err(error) && error.path@ == file && error.kind == fault.1
            &&& later_manager == manager
            &&& later == ledger
        },
        None => match done {
            Ok(renderer) => prepared(renderer, model, file, later_manager, later),
            Err(error) => {
                &&& failed_loading(read, error)
                &&& later_manager.texture(error.path@).is_none()
                &&& exists|i: int|
                    0 <= i < model.materials@.len() && (
                    #[trigger] model.materials@[i]).diffuse_texture@ == error.path@
            },
        },
    }
}

impl ModelBuilderSystem {
    /// Makes `model`, which was loaded from `file`, ready to be drawn, on a
    /// renderer of its own: the meshes and materials of the model are
    /// assembled, the bind group of every material is built from the
    /// texture that the registry holds under its path or loads from there,
    /// and the buffers of every mesh are built. See [`prepare_outcome`].
    ///
    /// Where a texture cannot be loaded, the bind groups that were built
    /// before it are released again, and nothing comes of the model.
    pub fn prepare<F: Fn(&String) -> Option<Vec<u8>>>(
        model: &ImportedModel,
        file: &String,
        manager: &mut MaterialManager,
        read: &F,
        gpu: &mut Gpu,
    ) -> (done: Result<Renderer, AssetLoadError>)
        requires
            forall|path: &String| read.requires((path,)),
        ensures
            old(manager)@.grows_to(final(manager)@),
            grown_by_loading(read, old(manager)@, final(manager)@, final(gpu)@),
            extends(old(gpu)@, final(gpu)@),
            prepare_outcome(
                read,
                *model,
                file@,
                old(manager)@,
                final(manager)@,
                old(gpu)@,
                final(gpu)@,
                done,
            ),
    {
        let mut renderer = match assemble(model, file) {
            Ok(renderer) => renderer,
            Err(kind) => {
                return Err(AssetLoadError { path: file.clone(), kind });
            },
        };
        let ghost plain = renderer;
        let ghost first_registry = manager@;
        match MaterialBuilderSystem::bind_all(&mut renderer.materials, manager, read, gpu) {
            Ok(()) => {},
            Err(error) => {
                let ghost stopped = gpu@;
                renderer.release(gpu);
                proof {
                    lemma_grown_by_loading_stays(read, first_registry, manager@, stopped, gpu@);
                    let i = choose|i: int|
                        {
                            &&& 0 <= i < plain.materials@.len()
                            &&& (#[trigger] plain.materials@[i]).diffuse_bind.is_none()
                            &&& plain.materials@[i].diffuse_texture@ == error.path@
                            &&& forall|j: int|
                                i <= j < plain.materials@.len() ==> renderer.materials@[j]
                                    == plain.materials@[j]
                        };
                    assert(model.materials@[i].diffuse_texture@ == error.path@);
                }
                return Err(error);
            },
        }
        let ghost bound_ledger = gpu@;
        let ghost materials = renderer.materials@;
        assert forall|i: int| 0 <= i < renderer.meshes@.len() implies (
        #[trigger] renderer.meshes@[i]).wf() by {
            assert(imports_model(plain, *model, file@));
        }
        MeshBuilderSystem::build_all(&mut renderer.meshes, gpu);
        proof {
            let n = plain.meshes@.len() as int;
            gpu.lemma_countable();
            lemma_build_meshes(plain.meshes@, bound_ledger, n);
            lemma_grown_by_loading_stays(read, first_registry, manager@, bound_ledger, gpu@);
            lemma_bound_below_stays(
                plain.materials@,
                materials,
                manager@,
                bound_ledger,
                manager@,
                gpu@,
                materials.len() as int,
            );
            assert forall|i: int| 0 <= i < renderer.meshes@.len() implies {
                let mesh = #[trigger] renderer.meshes@[i];
                &&& mesh.wf()
                &&& sized(mesh)
                &&& mesh_recorded(mesh, gpu@)
                &&& describes_mesh(mesh, model.meshes@[i], file@)
            } by {
                assert(imports(plain.meshes@[i], model.meshes@[i], file@));
                assert(up_to_date(plain.meshes@[i], renderer.meshes@[i], gpu@));
            }
            assert forall|i: int| 0 <= i < renderer.materials@.len() implies {
                let material = #[trigger] renderer.materials@[i];
                &&& material.diffuse_bind.is_some()
                &&& bind_recorded(material, manager@, gpu@)
                &&& describes_material(material, model.materials@[i])
            } by {
                assert(imports_material(plain.materials@[i], model.materials@[i]));
                assert(bound(plain.materials@[i], renderer.materials@[i], manager@, gpu@));
            }
        }
        Ok(renderer)
    }

    /// Makes `renderer` what `entity` is drawn with: it takes the place of
    /// the renderer of `entity`, what was built for the one that stood
    /// there is released, and the report says how many meshes and
    /// materials the new one has.
    pub fn install(
        renderers: &mut Storage<Renderer>,
        entity: Entity,
        renderer: Renderer,
        gpu: &mut Gpu,
    ) -> (report: Loaded)
        ensures
            final(renderers).pending() == old(renderers).pending(),
            report.entity == entity,
            report.meshes == renderer.meshes@.len(),
            report.materials == renderer.materials@.len(),
            final(renderers)@.len() == if entity.id < old(renderers)@.len() {
                old(renderers)@.len() as int
            } else {
                entity.id + 1
            },
            forall|id: int|
                0 <= id < final(renderers)@.len() && id != entity.id
                    ==> #[trigger] final(renderers)@[id] == slot(old(renderers)@, id),
            final(renderers)@[entity.id as int] == Some(renderer),
            final(gpu)@ == old(gpu)@.issue_all(
                replaced_releases(slot(old(renderers)@, entity.id as int)),
            ),
    {
        let report = Loaded {
            entity,
            meshes: renderer.meshes.len(),
            materials: renderer.materials.len(),
        };
        match renderers.insert(entity, renderer) {
            Some(replaced) => {
                replaced.release(gpu);
            },
            None => {
                assert(gpu@.commands =~= old(gpu)@.commands + Seq::<CommandView>::empty());
            },
        }
        report
    }

    /// One cycle of the stage: visits the entities in rising order of id
    /// and loads the file of each one that has a model file and a renderer
    /// without meshes. The model is made ready on a renderer of its own, as
    /// [`ModelBuilderSystem::prepare`] does, and only when that has
    /// succeeded the renderer takes the place of the one of the entity, as
    /// [`ModelBuilderSystem::install`] does.
    ///
    /// The stage reports the entities whose files it loaded, in order, each
    /// with the number of meshes and of materials that its file had.
    ///
    /// The first file or texture that cannot be loaded ends the cycle with
    /// its error; the renderer of that entity, and of every entity after
    /// it, is left as it was. A renderer whose file is not to be loaded is
    /// never touched, and a cycle with no such entity succeeds with nothing
    /// read and nothing asked of the device.
    pub fn run<F: Fn(&String) -> Option<Vec<u8>>>(
        &self,
        models: &Storage<ModelFile>,
        renderers: &mut Storage<Renderer>,
        manager: &mut MaterialManager,
        read: &F,
        gpu: &mut Gpu,
    ) -> (done: Result<Vec<Loaded>, AssetLoadError>)
        requires
            forall|path: &String| read.requires((path,)),
        ensures
            final(renderers).pending() == old(renderers).pending(),
            final(renderers)@.len() == old(renderers)@.len(),
            old(manager)@.grows_to(final(manager)@),
            grown_by_loading(read, old(manager)@, final(manager)@, final(gpu)@),
            extends(old(gpu)@, final(gpu)@),
            none_awaits_below(models@, scene(old(renderers)@), old(renderers)@.len() as int) ==> {
                &&& done.is_ok()
                &&& final(gpu)@ == old(gpu)@
                &&& final(manager)@ == old(manager)@
            },
            done matches Ok(loaded) ==> {
                let all = old(renderers)@.len() as int;
                &&& parsed_below(read, models@, scene(old(renderers)@), all)
                &&& imported_below(models@, old(renderers)@, final(renderers)@, all)
                &&& recorded_below(
                    models@,
                    old(renderers)@,
                    final(renderers)@,
                    final(manager)@,
                    final(gpu)@,
                    all,
                )
                &&& reports(
                    loaded@,
                    awaiting(models@, scene(old(renderers)@), all),
                    final(renderers)@,
                )
            },
            done matches Err(error) ==> exists|id: int, found: Option<Vec<u8>>|
                {
                    &&& #[trigger] stopped_at(models@, old(renderers)@, final(renderers)@, id)
                    &&& #[trigger] read_gave(read, &models@[id].unwrap().file, found)
                    &&& model_fails(
                        read,
                        found,
                        models@[id].unwrap().file@,
                        error,
                        final(manager)@,
                    )
                },
    {
        let ghost before = renderers@;
        let ghost sources = scene(before);
        let ghost ledger = gpu@;
        let ghost registry = manager@;
        let n = if models.slots.len() < renderers.slots.len() {
            models.slots.len()
        } else {
            renderers.slots.len()
        };
        let mut loaded: Vec<Loaded> = Vec::new();
        let mut id: usize = 0;
        while id < n
            invariant
                id <= n,
                n <= models@.len(),
                n <= renderers@.len(),
                n == models@.len() || n == renderers@.len(),
                before == old(renderers)@,
                sources == scene(before),
                ledger == old(gpu)@,
                registry == old(manager)@,
                renderers.pending() == old(renderers).pending(),
                forall|path: &String| read.requires((path,)),
                registry.grows_to(manager@),
                grown_by_loading(read, registry, manager@, gpu@),
                extends(ledger, gpu@),
                none_awaits_below(models@, sources, id as int) ==> gpu@ == ledger && manager@
                    == registry,
                imported_below(models@, before, renderers@, id as int),
                recorded_below(models@, before, renderers@, manager@, gpu@, id as int),
                parsed_below(read, models@, sources, id as int),
                reports(loaded@, awaiting(models@, sources, id as int), renderers@),
            decreases n - id,
        {
            let ghost so_far = renderers@;
            let ghost earlier = gpu@;
            let ghost known = manager@;
            proof {
                lemma_awaiting_below(models@, sources, id as int);
            }
            if let Some(model) = &models.slots[id] {
                let stale = match &renderers.slots[id] {
                    Some(renderer) => renderer.meshes.len() == 0,
                    None => false,
                };
                assert(stale == awaits_import(models@, sources, id as int));
                if stale {
                    let loading = load_model(&model.file, read);
                    let ghost found = choose|found: Option<Vec<u8>>|
                        #[trigger] read_gave(read, &model.file, found) && model_loaded(
                            found,
                            model.file@,
                            loading,
                        );
                    let imported = match loading {
                        Ok(imported) => imported,
                        Err(error) => {
                            assert(stopped_at(models@, before, renderers@, id as int));
                            assert(import_fails(found, model.file@, error));
                            return Err(error);
                        },
                    };
                    assert(was_parsed(read, model.file));
                    let renderer = match Self::prepare(
                        &imported,
                        &model.file,
                        manager,
                        read,
                        gpu,
                    ) {
                        Ok(renderer) => renderer,
                        Err(error) => {
                            proof {
                                lemma_grown_by_loading_chains(
                                    read,
                                    registry,
                                    known,
                                    manager@,
                                    earlier,
                                    gpu@,
                                );
                                assert(stopped_at(models@, before, renderers@, id as int));
                                if first_fault(
                                    imported.meshes@,
                                    imported.materials@.len() as int,
                                    imported.meshes@.len() as int,
                                ).is_some() {
                                    assert(faulty(imported, error.kind));
                                    assert(import_fails(found, model.file@, error));
                                }
                            }
                            return Err(error);
                        },
                    };
                    let ghost made = gpu@;
                    let report = Self::install(renderers, Entity { id }, renderer, gpu);
                    loaded.push(report);
                    proof {
                        lemma_grown_by_loading_chains(
                            read,
                            registry,
                            known,
                            manager@,
                            earlier,
                            made,
                        );
                        lemma_grown_by_loading_stays(read, registry, manager@, made, gpu@);
                        lemma_recorded_stays(renderer, manager@, made, manager@, gpu@);
                        assert(describes_model(renderer, imported, model.file@));
                        assert(fresh_import(renderers@[id as int], model.file@));
                    }
                }
            }
            proof {
                assert forall|j: int|
                    0 <= j < id && j < renderers@.len() && awaits_import(
                        models@,
                        sources,
                        j,
                    ) implies (#[trigger] renderers@[j]).is_some() && recorded(
                    renderers@[j].unwrap(),
                    manager@,
                    gpu@,
                ) by {
                    assert(renderers@[j] == so_far[j]);
                    lemma_recorded_stays(so_far[j].unwrap(), known, earlier, manager@, gpu@);
                }
            }
            assert(reports(loaded@, awaiting(models@, sources, id + 1), renderers@)) by {
                let entities = awaiting(models@, sources, id as int);
                assert forall|k: int| 0 <= k < entities.len() implies slot(
                    renderers@,
                    entities[k].id as int,
                ) == slot(so_far, entities[k].id as int) by {}
            }
            id = id + 1;
        }
        proof {
            let all = before.len() as int;
            assert(none_awaits_from(models@, sources, n as int)) by {
                assert forall|j: int| n <= j implies !awaits_import(models@, sources, j) by {}
            }
            lemma_awaiting_end(models@, sources, n as int, all);
            assert(imported_below(models@, before, renderers@, all));
        }
        Ok(loaded)
    }
}

} // verus!
