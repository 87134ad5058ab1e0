//! The world of entities, the order of the stages in a cycle, and what the
//! host's events lead to.
use crate::assets::{failed, read_gave, AssetErrorKind, AssetLoadError};
use crate::components::rendering::{
    lemma_same_description_chains, retire_renderers, retire_transforms, retired_renderers,
    retired_transforms, same_description, same_material, same_mesh, scene, Aspect, Camera,
    ModelFile, Renderer, RendererView, Transform,
};
use crate::gpu::{extends, Command, CommandView, Gpu, GpuView, Handle, LayoutKind};
use crate::material_manager::{
    failed_loading, grown_by_loading, lemma_grown_by_loading_chains, shader_added, shader_made,
    shader_registered, MaterialManager, MaterialManagerView, Shader,
};
use crate::store::{
    joined, lemma_joined_below, lemma_without, slot, without, Entity, Storage,
};
use crate::systems::camera::{
    all_viewed, eye, lemma_view_all_binds, lemma_view_all_grows, placed_as, view_all,
    CameraSystem, ProjectionCount,
};
use crate::systems::material_builder::{
    all_bound, all_kept, kept, lemma_all_bound, scene_bound, scene_bound_below, scene_kept,
    scene_stopped, stopped_binding, MaterialBuilderSystem,
};
use crate::systems::mesh_builder::{
    build_scene, lemma_cycle_builds, meshes_up_to_date, meshes_wf, scene_up_to_date, settled,
    sized, up_to_date, MeshBuilderSystem,
};
use crate::systems::model_builder::{
    awaiting, awaits_import, fresh_import, imported_below, lemma_recorded_below_stays,
    model_fails, parsed_below, ready, recorded_below, reports, stopped_at, Loaded,
    ModelBuilderSystem,
};
use crate::systems::rendering::{
    frame_draws, lemma_drawable_world_draws, mesh_draws, recovery, Frame, FrameStatus, Recovery,
    RenderError, RenderSystem, CLEAR_COLOR,
};
use crate::systems::resizing::{
    reshaped, resize_outcome, PhysicalSize, Resize, ResizingSystem, SurfaceConfiguration,
};
use vstd::prelude::*;
use vstd::utf8::{decode_utf8, valid_utf8};

verus! {

/// What the host reports.
#[derive(Clone, Copy, PartialEq, Eq, Structural, Debug)]
pub enum HostEvent {
    RedrawRequested,
    CloseRequested,
    EscapePressed,
    Resized { size: PhysicalSize },
    ScaleFactorChanged { size: PhysicalSize },
    MainEventsCleared,
    Other,
}

/// What an event of the host leads to.
#[derive(Clone, Copy, PartialEq, Eq, Structural, Debug)]
pub enum HostAction {
    /// Run one cycle.
    Update,
    /// Leave the event loop.
    Exit,
    /// Take note of the window's new size.
    Resize { size: PhysicalSize },
    /// Ask the window for a redraw.
    RequestRedraw,
    Ignore,
}

/// What `event` leads to, where `own_window` says whether it is about the
/// window of the application.
pub open spec fn reaction(event: HostEvent, own_window: bool) -> HostAction {
    match event {
        HostEvent::MainEventsCleared => HostAction::RequestRedraw,
        HostEvent::RedrawRequested if own_window => HostAction::Update,
        HostEvent::CloseRequested if own_window => HostAction::Exit,
        HostEvent::EscapePressed if own_window => HostAction::Exit,
        HostEvent::Resized { size } if own_window => HostAction::Resize { size },
        HostEvent::ScaleFactorChanged { size } if own_window => HostAction::Resize { size },
        _ => HostAction::Ignore,
    }
}

/// What an event of the host leads to. A request to redraw the own window
/// runs a cycle; closing it, or the escape key in it, ends the loop; a new
/// size or scale of it is taken note of; when the host has no more events,
/// a redraw is asked for. Events about other windows are ignored.
pub fn react(event: HostEvent, own_window: bool) -> (action: HostAction)
    ensures
        action == reaction(event, own_window),
{
    match event {
        HostEvent::MainEventsCleared => HostAction::RequestRedraw,
        HostEvent::Other => HostAction::Ignore,
        _ => {
            if !own_window {
                return HostAction::Ignore;
            }
            match event {
                HostEvent::RedrawRequested => HostAction::Update,
                HostEvent::CloseRequested => HostAction::Exit,
                HostEvent::EscapePressed => HostAction::Exit,
                HostEvent::Resized { size } => HostAction::Resize { size },
                HostEvent::ScaleFactorChanged { size } => HostAction::Resize { size },
                _ => HostAction::Ignore,
            }
        },
    }
}

/// Why the stages that prepare a frame did not finish.
#[derive(Clone, PartialEq, Eq, Debug)]
pub enum CycleError {
    Asset { error: AssetLoadError },
    Projection { count: ProjectionCount },
}

/// Everything that the stages work on: the components of the entities, the
/// size of the window and the configuration of the surface, the ledger of
/// the device, the registry of materials and the shader that all is drawn
/// with.
pub struct Application {
    pub models: Storage<ModelFile>,
    pub renderers: Storage<Renderer>,
    pub transforms: Storage<Transform>,
    pub cameras: Storage<Camera>,
    pub size: PhysicalSize,
    pub config: SurfaceConfiguration,
    pub gpu: Gpu,
    pub materials: MaterialManager,
    pub shader: Shader,
    pub entities: usize,
    /// Whether the surface gave no frame in the cycle before.
    pub failed_before: bool,
}

/// The ledger of a new application before the shader is registered: the
/// surface is configured one pixel wide and high, and the two bind group
/// layouts are asked for, the one for textures first.
pub open spec fn startup() -> GpuView {
    GpuView {
        batch: 0,
        commands: seq![
            CommandView::ConfigureSurface { width: 1, height: 1 },
            CommandView::CreateBindGroupLayout { kind: LayoutKind::Texture },
            CommandView::CreateBindGroupLayout { kind: LayoutKind::Camera },
        ],
    }
}

/// `ledger` is the ledger of a new application whose shader has the text
/// `source`: after [`startup`], the shader `default` is registered for
/// pipelines with the two layouts.
pub open spec fn started(ledger: GpuView, source: Seq<char>) -> bool {
    shader_registered(
        startup(),
        ledger,
        "default"@,
        source,
        seq![Handle { batch: 0, index: 1 }, Handle { batch: 0, index: 2 }],
    )
}

/// Every mesh of `after` that was due for a build has its buffers, as long
/// as its description asks: every mesh of an entity whose file was to be
/// loaded, and every mesh that needed a rebuild in `before`.
pub open spec fn built_where_due(
    models: Seq<Option<ModelFile>>,
    before: Seq<Option<Renderer>>,
    after: Seq<Option<Renderer>>,
) -> bool {
    forall|id: int, i: int|
        0 <= id < after.len() && after[id].is_some() && 0 <= i < after[id].unwrap().meshes@.len() && (
        awaits_import(models, scene(before), id) || slot(
            before,
            id,
        ).unwrap().meshes@[i].needs_rebuild()) ==> sized(#[trigger] after[id].unwrap().meshes@[i])
}

/// There is something for the stages that load to do: the file of an
/// entity is to be loaded, or a material has no bind group.
pub open spec fn work_due(models: Seq<Option<ModelFile>>, renderers: Seq<Option<Renderer>>) -> bool {
    ||| exists|id: int| awaits_import(models, scene(renderers), id)
    ||| !scene_bound(scene(renderers), renderers.len() as int)
}

/// `error` is an error that making the model of an entity ready comes to
/// whose file was to be loaded, given what `read` gave for the file and
/// the textures that `registry` holds.
pub open spec fn model_failed<F: Fn(&String) -> Option<Vec<u8>>>(
    read: &F,
    models: Seq<Option<ModelFile>>,
    renderers: Seq<Option<Renderer>>,
    error: AssetLoadError,
    registry: MaterialManagerView,
) -> bool {
    exists|id: int, found: Option<Vec<u8>>|
        {
            &&& awaits_import(models, scene(renderers), id)
            &&& #[trigger] read_gave(read, &models[id].unwrap().file, found)
            &&& model_fails(read, found, models[id].unwrap().file@, error, registry)
        }
}

/// The stages took `before` to `after`, one after the other, by way of the
/// renderers `imported` and the ledger `made` that the model stage left,
/// the renderers `built` that the mesh stage left, and the ledger `bound`
/// that the material stage left.
///
/// The model stage loads the files that are to be loaded, builds what
/// their models are drawn with, and only ever appends to the ledger. The
/// mesh stage builds on from there, as
/// [`build_scene`] says. The material stage fills in missing bind groups
/// from textures that it finds in the registry or loads through `read`,
/// and only ever appends to the ledger. The camera stage uploads the
/// matrices as [`view_all`] says, where a camera is in use. The resize
/// stage reconfigures the surface where the window has another size.
pub open spec fn staged<F: Fn(&String) -> Option<Vec<u8>>>(
    read: &F,
    before: Application,
    after: Application,
    matrices: Seq<[[u32; 4]; 4]>,
    imported: Seq<Option<Renderer>>,
    made: GpuView,
    built: Seq<Option<Renderer>>,
    bound: GpuView,
) -> bool {
    let all = before.renderers@.len() as int;
    let sources = scene(before.renderers@);
    let viewed = if eye(before.cameras@, before.transforms@).is_some() {
        view_all(
            before.transforms@,
            joined(after.renderers@, before.transforms@),
            matrices,
            before.materials@.camera_bind_group_layout,
            bound,
            matrices.len() as int,
        )
    } else {
        (before.transforms@, bound)
    };
    &&& parsed_below(read, before.models@, sources, all)
    &&& imported_below(before.models@, before.renderers@, imported, all)
    &&& recorded_below(
        before.models@,
        before.renderers@,
        imported,
        after.materials@,
        bound,
        all,
    )
    &&& extends(before.gpu@, made)
    &&& scene(built) == build_scene(scene(imported), made, all).0
    &&& extends(build_scene(scene(imported), made, all).1, bound)
    &&& scene_kept(built, after.renderers@)
    &&& scene_bound_below(built, after.renderers@, after.materials@, bound, all)
    &&& before.materials@.grows_to(after.materials@)
    &&& grown_by_loading(read, before.materials@, after.materials@, bound)
    &&& after.transforms@ == viewed.0
    &&& after.gpu@ == match resize_outcome(before.config, before.size) {
        Resize::Reconfigured => viewed.1.issue(
            CommandView::ConfigureSurface { width: before.size.width, height: before.size.height },
        ),
        _ => viewed.1,
    }
}

/// `renderer` describes what a model file yielded under the name `file`.
pub open spec fn loaded_from(renderer: Option<Renderer>, file: Seq<char>) -> bool {
    exists|fresh: Option<Renderer>|
        #[trigger] fresh_import(fresh, file) && same_description(fresh, renderer)
}

/// The renderers `after` describe what those of `before` described, but
/// that those below `n` whose files were to be loaded describe what the
/// files yielded.
pub open spec fn loaded_below(
    models: Seq<Option<ModelFile>>,
    before: Seq<Option<Renderer>>,
    after: Seq<Option<Renderer>>,
    n: int,
) -> bool {
    &&& after.len() == before.len()
    &&& forall|id: int|
        0 <= id < before.len() ==> if id < n && awaits_import(models, scene(before), id) {
            loaded_from(#[trigger] after[id], models[id].unwrap().file@)
        } else {
            same_description(before[id], #[trigger] after[id])
        }
}

/// `made` is what making an application for a window of `size` comes to
/// when the reader gave `found` for the file `default.wgsl`: the error of
/// kind `Missing` where it gave nothing, the error of kind `Malformed`
/// where it gave bytes that are not UTF-8, and else the fresh application
/// whose shader has the text that the bytes encode.
pub open spec fn application_made(
    found: Option<Vec<u8>>,
    size: PhysicalSize,
    made: Result<Application, AssetLoadError>,
) -> bool {
    match found {
        None => failed(made, "default.wgsl"@, AssetErrorKind::Missing),
        Some(bytes) => if valid_utf8(bytes@) {
            made matches Ok(app) && app.fresh(size, decode_utf8(bytes@))
        } else {
            failed(made, "default.wgsl"@, AssetErrorKind::Malformed)
        },
    }
}

impl Application {
    /// Every mesh fits a draw call.
    pub open spec fn wf(&self) -> bool {
        meshes_wf(scene(self.renderers@))
    }

    /// `self` is an application without entities for a window of `size`,
    /// whose shader has the text `source`: the surface is configured one
    /// pixel wide and high, the two bind group layouts are asked for, and
    /// the shader `default` is registered with them.
    pub open spec fn fresh(&self, size: PhysicalSize, source: Seq<char>) -> bool {
        &&& self.wf()
        &&& self.models@.len() == 0 && self.models.pending().len() == 0
        &&& self.renderers@.len() == 0 && self.renderers.pending().len() == 0
        &&& self.transforms@.len() == 0 && self.transforms.pending().len() == 0
        &&& self.cameras@.len() == 0 && self.cameras.pending().len() == 0
        &&& self.size == size
        &&& self.config == (SurfaceConfiguration { width: 1, height: 1 })
        &&& self.entities == 0
        &&& !self.failed_before
        &&& self.materials@ == (MaterialManagerView {
            texture_bind_group_layout: Handle { batch: 0, index: 1 },
            camera_bind_group_layout: Handle { batch: 0, index: 2 },
            textures: Seq::empty(),
        })
        &&& self.shader == shader_made(startup())
        &&& started(self.gpu@, source)
    }

    /// An application without entities, for a window of `size`. The surface
    /// is configured one pixel wide and high, to be resized in the first
    /// cycle; the two bind group layouts are asked for, and the shader
    /// `default` is registered, whose text `read` finds in `default.wgsl`.
    ///
    /// It fails where `read` finds no such file (`Missing`) or the file is
    /// not UTF-8 text (`Malformed`), and succeeds on every other file: see
    /// [`application_made`].
    pub fn new<F: Fn(&String) -> Option<Vec<u8>>>(size: PhysicalSize, read: &F) -> (made: Result<
        Application,
        AssetLoadError,
    >)
        requires
            forall|path: &String| read.requires((path,)),
        ensures
            exists|file: &String, found: Option<Vec<u8>>|
                {
                    &&& file@ == "default.wgsl"@
                    &&& #[trigger] read_gave(read, file, found)
                    &&& application_made(found, size, made)
                },
    {
        let mut gpu = Gpu::new();
        let config = SurfaceConfiguration { width: 1, height: 1 };
        let _ = gpu.issue(Command::ConfigureSurface { width: 1, height: 1 });
        let materials = MaterialManager::new(&mut gpu);
        assert(gpu@.commands =~= startup().commands);
        assert(gpu@ == startup());
        let name = "default".to_owned();
        let added = materials.add_shader(&name, read, &mut gpu);
        let ghost ledger = gpu@;
        let ghost layouts = seq![
            materials@.texture_bind_group_layout,
            materials@.camera_bind_group_layout,
        ];
        let ghost (file, found) = choose|file: &String, found: Option<Vec<u8>>|
            {
                &&& file@ == name@ + ".wgsl"@
                &&& #[trigger] read_gave(read, file, found)
                &&& shader_added(found, name@, layouts, startup(), ledger, added)
            };
        proof {
            reveal_strlit("default");
            reveal_strlit(".wgsl");
            reveal_strlit("default.wgsl");
            assert(name@ + ".wgsl"@ =~= "default.wgsl"@);
            assert(layouts =~= seq![Handle { batch: 0, index: 1 }, Handle { batch: 0, index: 2 }]);
        }
        let shader = match added {
            Ok(shader) => shader,
            Err(error) => {
                assert(application_made(found, size, Err::<Application, AssetLoadError>(error)));
                return Err(error);
            },
        };
        let app = Application {
            models: Storage::new(),
            renderers: Storage::new(),
            transforms: Storage::new(),
            cameras: Storage::new(),
            size,
            config,
            gpu,
            materials,
            shader,
            entities: 0,
            failed_before: false,
        };
        assert(app.gpu@ == ledger);
        assert(app.fresh(size, decode_utf8(found.unwrap()@)));
        Ok(app)
    }

    /// A new entity, with no components yet; `None` when the numbers are
    /// used up.
    pub fn create_entity(&mut self) -> (entity: Option<Entity>)
        ensures
            old(self).entities < usize::MAX ==> {
                &&& entity == Some(Entity { id: old(self).entities })
                &&& *final(self) == (Application {
                    entities: (old(self).entities + 1) as usize,
                    ..*old(self)
                })
            },
            old(self).entities == usize::MAX ==> entity.is_none() && *final(self) == *old(self),
    {
        if self.entities == usize::MAX {
            return None;
        }
        let entity = Entity { id: self.entities };
        self.entities = self.entities + 1;
        Some(entity)
    }

    /// Takes note of the window's new size. A size without area is ignored.
    pub fn resize(&mut self, new_size: PhysicalSize)
        ensures
            *final(self) == (Application {
                size: if new_size.width > 0 && new_size.height > 0 {
                    new_size
                } else {
                    old(self).size
                },
                ..*old(self)
            }),
    {
        if new_size.width > 0 && new_size.height > 0 {
            self.size = new_size;
        }
    }

    /// Whether the application has dealt with `event` itself, so that the
    /// event loop need not react to it: it never has.
    pub fn input(&mut self, event: HostEvent) -> (handled: bool)
        ensures
            !handled,
            *final(self) == *old(self),
    {
        false
    }

    /// Notes that every component of `entity` is to go at the next
    /// [`Application::maintain`]. Until then the world reads as before.
    pub fn delete_entity(&mut self, entity: Entity)
        ensures
            final(self).models@ == old(self).models@,
            final(self).renderers@ == old(self).renderers@,
            final(self).transforms@ == old(self).transforms@,
            final(self).cameras@ == old(self).cameras@,
            final(self).models.pending() == old(self).models.pending().push(entity),
            final(self).renderers.pending() == old(self).renderers.pending().push(entity),
            final(self).transforms.pending() == old(self).transforms.pending().push(entity),
            final(self).cameras.pending() == old(self).cameras.pending().push(entity),
            final(self).size == old(self).size,
            final(self).config == old(self).config,
            final(self).gpu == old(self).gpu,
            final(self).materials == old(self).materials,
            final(self).shader == old(self).shader,
            final(self).entities == old(self).entities,
            final(self).failed_before == old(self).failed_before,
    {
        self.models.remove_later(entity);
        self.renderers.remove_later(entity);
        self.transforms.remove_later(entity);
        self.cameras.remove_later(entity);
    }

    /// Carries out the removals that were noted, and tells the device that
    /// what was built for the renderers and transforms that go is no longer
    /// in use: first for the renderers, then for the transforms.
    pub fn maintain(&mut self)
        ensures
            final(self).models@ == without(
                old(self).models@,
                old(self).models.pending(),
                old(self).models.pending().len() as int,
            ),
            final(self).renderers@ == without(
                old(self).renderers@,
                old(self).renderers.pending(),
                old(self).renderers.pending().len() as int,
            ),
            final(self).transforms@ == without(
                old(self).transforms@,
                old(self).transforms.pending(),
                old(self).transforms.pending().len() as int,
            ),
            final(self).cameras@ == without(
                old(self).cameras@,
                old(self).cameras.pending(),
                old(self).cameras.pending().len() as int,
            ),
            final(self).models.pending().len() == 0,
            final(self).renderers.pending().len() == 0,
            final(self).transforms.pending().len() == 0,
            final(self).cameras.pending().len() == 0,
            old(self).wf() ==> final(self).wf(),
            final(self).gpu@ == old(self).gpu@.issue_all(
                retired_renderers(
                    old(self).renderers@,
                    old(self).renderers.pending(),
                    old(self).renderers.pending().len() as int,
                ) + retired_transforms(
                    old(self).transforms@,
                    old(self).transforms.pending(),
                    old(self).transforms.pending().len() as int,
                ),
            ),
            final(self).size == old(self).size,
            final(self).config == old(self).config,
            final(self).materials == old(self).materials,
            final(self).shader == old(self).shader,
            final(self).entities == old(self).entities,
            final(self).failed_before == old(self).failed_before,
    {
        self.models.commit();
        retire_renderers(&mut self.renderers, &mut self.gpu);
        retire_transforms(&mut self.transforms, &mut self.gpu);
        self.cameras.commit();
        proof {
            if old(self).wf() {
                let before = old(self).renderers@;
                let doomed = old(self).renderers.pending();
                lemma_without(before, doomed, doomed.len() as int);
                let now = scene(self.renderers@);
                assert forall|id: int, i: int|
                    0 <= id < now.len() && now[id].is_some() && 0 <= i
                        < now[id].unwrap().meshes.len() implies (
                #[trigger] now[id].unwrap().meshes[i]).wf() by {
                    assert(self.renderers@[id] == before[id]);
                    assert(scene(before)[id].unwrap().meshes[i].wf());
                }
            }
        }
        assert(self.gpu@.commands =~= old(self).gpu@.commands + (retired_renderers(
            old(self).renderers@,
            old(self).renderers.pending(),
            old(self).renderers.pending().len() as int,
        ) + retired_transforms(
            old(self).transforms@,
            old(self).transforms.pending(),
            old(self).transforms.pending().len() as int,
        )));
    }

    /// The stages that prepare a frame, in their order. Model files are
    /// loaded, each with its buffers and bind groups; then the buffers of
    /// meshes that changed are built, then materials without a bind group
    /// are bound, then the matrices are uploaded, then the surface follows
    /// the window.
    ///
    /// `read` reads the files that the stages ask for, and `matrices` holds
    /// the matrix for each entity that [`CameraSystem::plan`] lists, in that
    /// order.
    ///
    /// The first stage that fails ends the cycle with its error. Where none
    /// fails, no mesh needs a rebuild afterwards, every material is bound,
    /// and the surface has the size of the window, unless that has no area;
    /// what comes back is the report of the model stage.
    pub fn dispatch<F: Fn(&String) -> Option<Vec<u8>>>(
        &mut self,
        read: &F,
        matrices: &Vec<[[u32; 4]; 4]>,
    ) -> (done: Result<Vec<Loaded>, CycleError>)
        requires
            old(self).wf(),
            forall|path: &String| read.requires((path,)),
        ensures
            final(self).wf(),
            final(self).size == old(self).size,
            final(self).shader == old(self).shader,
            final(self).entities == old(self).entities,
            final(self).failed_before == old(self).failed_before,
            final(self).models == old(self).models,
            final(self).renderers.pending() == old(self).renderers.pending(),
            final(self).transforms.pending() == old(self).transforms.pending(),
            final(self).cameras.pending() == old(self).cameras.pending(),
            exists|n: int|
                #[trigger] loaded_below(
                    old(self).models@,
                    old(self).renderers@,
                    final(self).renderers@,
                    n,
                ),
            placed_as(old(self).transforms@, final(self).transforms@),
            extends(old(self).gpu@, final(self).gpu@),
            done.is_err() ==> {
                &&& final(self).config == old(self).config
                &&& final(self).cameras@ == old(self).cameras@
            },
            done matches Err(CycleError::Asset { error }) ==> {
                &&& model_failed(
                    read,
                    old(self).models@,
                    old(self).renderers@,
                    error,
                    final(self).materials@,
                ) || (failed_loading(read, error) && final(self).materials@.texture(
                    error.path@,
                ).is_none())
                &&& work_due(old(self).models@, old(self).renderers@)
            },
            done matches Err(CycleError::Projection { count }) ==> {
                &&& eye(old(self).cameras@, old(self).transforms@).is_some()
                &&& matrices@.len() != joined(final(self).renderers@, old(self).transforms@).len()
                &&& count == (ProjectionCount {
                    expected: joined(final(self).renderers@, old(self).transforms@).len() as usize,
                    given: matrices@.len() as usize,
                })
            },
            done matches Ok(loaded) ==> reports(
                loaded@,
                awaiting(
                    old(self).models@,
                    scene(old(self).renderers@),
                    old(self).renderers@.len() as int,
                ),
                final(self).renderers@,
            ),
            done.is_ok() && eye(old(self).cameras@, old(self).transforms@).is_some() ==> all_viewed(
                final(self).renderers@,
                final(self).transforms@,
            ),
            done.is_ok() ==> exists|
                imported: Seq<Option<Renderer>>,
                made: GpuView,
                built: Seq<Option<Renderer>>,
                bound: GpuView,
            |
                #[trigger] staged(
                    read,
                    *old(self),
                    *final(self),
                    matrices@,
                    imported,
                    made,
                    built,
                    bound,
                ),
            done.is_ok() ==> {
                &&& loaded_below(
                    old(self).models@,
                    old(self).renderers@,
                    final(self).renderers@,
                    old(self).renderers@.len() as int,
                )
                &&& built_where_due(old(self).models@, old(self).renderers@, final(self).renderers@)
                &&& settled(scene(final(self).renderers@))
                &&& scene_bound(scene(final(self).renderers@), final(self).renderers@.len() as int)
                &&& final(self).config == match resize_outcome(old(self).config, old(self).size) {
                    Resize::Reconfigured => SurfaceConfiguration {
                        width: old(self).size.width,
                        height: old(self).size.height,
                    },
                    _ => old(self).config,
                }
                &&& final(self).cameras@ == match resize_outcome(old(self).config, old(self).size) {
                    Resize::Reconfigured => reshaped(
                        old(self).cameras@,
                        Aspect { width: old(self).size.width, height: old(self).size.height },
                    ),
                    _ => old(self).cameras@,
                }
            },
    {
        let loaded = match ModelBuilderSystem.run(
            &self.models,
            &mut self.renderers,
            &mut self.materials,
            read,
            &mut self.gpu,
        ) {
            Ok(loaded) => loaded,
            Err(error) => {
                proof {
                    let (id, found) = choose|id: int, found: Option<Vec<u8>>|
                        {
                            &&& #[trigger] stopped_at(
                                self.models@,
                                old(self).renderers@,
                                self.renderers@,
                                id,
                            )
                            &&& #[trigger] read_gave(read, &self.models@[id].unwrap().file, found)
                            &&& model_fails(
                                read,
                                found,
                                self.models@[id].unwrap().file@,
                                error,
                                self.materials@,
                            )
                        };
                    assert(model_failed(
                        read,
                        old(self).models@,
                        old(self).renderers@,
                        error,
                        self.materials@,
                    ));
                    assert(awaits_import(old(self).models@, scene(old(self).renderers@), id));
                    Self::lemma_import_keeps_wf(
                        self.models@,
                        old(self).renderers@,
                        self.renderers@,
                        id,
                    );
                    Self::lemma_loaded_below(
                        self.models@,
                        old(self).renderers@,
                        self.renderers@,
                        self.renderers@,
                        id,
                    );
                }
                return Err(CycleError::Asset { error });
            },
        };
        let ghost entities = awaiting(
            old(self).models@,
            scene(old(self).renderers@),
            old(self).renderers@.len() as int,
        );
        let ghost fresh = self.renderers@;
        proof {
            Self::lemma_import_keeps_wf(
                self.models@,
                old(self).renderers@,
                fresh,
                fresh.len() as int,
            );
        }
        let ghost imported = scene(self.renderers@);
        let ghost ledger = self.gpu@;
        let ghost registry = self.materials@;
        MeshBuilderSystem.run(&mut self.renderers, &mut self.gpu);
        let ghost built = self.renderers@;
        proof {
            let n = imported.len() as int;
            self.gpu.lemma_countable();
            lemma_cycle_builds(imported, ledger, n);
            assert(imported.take(n) =~= imported);
            assert(scene(built).take(n) =~= scene(built));
            Self::lemma_built_is_settled(imported, scene(built), ledger, self.gpu@);
            assert forall|id: int| 0 <= id < fresh.len() && fresh[id].is_some() implies (
            #[trigger] built[id]).is_some() && built[id].unwrap().meshes@.len()
                == fresh[id].unwrap().meshes@.len() && built[id].unwrap().materials@.len()
                == fresh[id].unwrap().materials@.len() by {
                assert(imported[id].is_some());
                assert(scene(built)[id].is_some());
            }
            assert forall|id: int| 0 <= id < fresh.len() && fresh[id].is_some() implies (
            #[trigger] built[id]).is_some() && built[id].unwrap().materials@
                == fresh[id].unwrap().materials@ by {
                assert(imported[id].is_some());
                assert(scene(built)[id].is_some());
            }
            assert forall|id: int| 0 <= id < fresh.len() && fresh[id].is_none() implies (
            #[trigger] built[id]).is_none() by {
                assert(imported[id].is_none());
                assert(scene(built)[id].is_none());
            }
            Self::lemma_reports_stay(loaded@, entities, fresh, built);
            Self::lemma_build_keeps_descriptions(fresh, built, ledger, self.gpu@);
            Self::lemma_loaded_below(
                self.models@,
                old(self).renderers@,
                fresh,
                built,
                fresh.len() as int,
            );
            assert(built_where_due(self.models@, old(self).renderers@, built)) by {
                assert forall|id: int, i: int|
                    0 <= id < built.len() && built[id].is_some() && 0 <= i
                        < built[id].unwrap().meshes@.len() && (awaits_import(
                        self.models@,
                        scene(old(self).renderers@),
                        id,
                    ) || slot(old(self).renderers@, id).unwrap().meshes@[i].needs_rebuild()) implies sized(
                    #[trigger] built[id].unwrap().meshes@[i],
                ) by {
                    let source = imported[id].unwrap();
                    assert(scene(built)[id].is_some());
                    assert(meshes_up_to_date(
                        source.meshes,
                        scene(built)[id].unwrap().meshes,
                        ledger,
                        self.gpu@,
                    ));
                    assert(up_to_date(source.meshes[i], built[id].unwrap().meshes@[i], self.gpu@));
                    if awaits_import(self.models@, scene(old(self).renderers@), id) {
                        assert(ready(fresh[id].unwrap()));
                        assert(sized(fresh[id].unwrap().meshes@[i]));
                        assert(!source.meshes[i].needs_rebuild());
                    } else {
                        assert(fresh[id] == old(self).renderers@[id]);
                    }
                }
            }
        }
        let bound = MaterialBuilderSystem.run(
            &mut self.renderers,
            &mut self.materials,
            read,
            &mut self.gpu,
        );
        proof {
            Self::lemma_binding_keeps_meshes(built, self.renderers@);
            Self::lemma_reports_stay(loaded@, entities, built, self.renderers@);
            assert(built_where_due(self.models@, old(self).renderers@, self.renderers@));
            Self::lemma_bind_keeps_descriptions(built, self.renderers@);
            Self::lemma_loaded_below_stays(
                self.models@,
                old(self).renderers@,
                built,
                self.renderers@,
                fresh.len() as int,
            );
            lemma_grown_by_loading_chains(
                read,
                old(self).materials@,
                registry,
                self.materials@,
                ledger,
                self.gpu@,
            );
            lemma_recorded_below_stays(
                self.models@,
                old(self).renderers@,
                fresh,
                registry,
                ledger,
                self.materials@,
                self.gpu@,
                fresh.len() as int,
            );
        }
        match bound {
            Ok(()) => {},
            Err(error) => {
                proof {
                    Self::lemma_unbound_was_due(
                        self.models@,
                        old(self).renderers@,
                        fresh,
                        built,
                        self.renderers@,
                        error.path@,
                    );
                }
                return Err(CycleError::Asset { error });
            },
        }
        proof {
            lemma_all_bound(built, self.renderers@, self.materials@, self.gpu@);
        }
        let layout = *self.materials.get_camera_bind_group_layout();
        let ghost before_views = self.gpu@;
        match CameraSystem.run(
            &self.cameras,
            &mut self.transforms,
            &self.renderers,
            matrices,
            layout,
            &mut self.gpu,
        ) {
            Ok(()) => {},
            Err(count) => {
                return Err(CycleError::Projection { count });
            },
        }
        proof {
            let subjects = joined(self.renderers@, old(self).transforms@);
            let n = matrices@.len() as int;
            lemma_view_all_grows(old(self).transforms@, subjects, matrices@, layout, before_views, n);
            if eye(self.cameras@, old(self).transforms@).is_some() {
                self.renderers.lemma_countable();
                lemma_joined_below(
                    self.renderers@,
                    old(self).transforms@,
                    self.renderers@.len() as int,
                );
                lemma_view_all_binds(
                    old(self).transforms@,
                    subjects,
                    matrices@,
                    layout,
                    before_views,
                    n,
                );
                assert forall|id: int|
                    0 <= id < self.renderers@.len() && self.renderers@[id].is_some() && slot(
                        self.transforms@,
                        id,
                    ).is_some() implies (#[trigger] self.transforms@[id]).unwrap().bind.is_some() by {
                    let entity = Entity { id: id as usize };
                    assert(slot(old(self).transforms@, id).is_some());
                    assert(subjects.contains(entity));
                    let k = choose|k: int| 0 <= k < subjects.len() && subjects[k] == entity;
                    assert(self.transforms@[subjects[k].id as int].unwrap().bind.is_some());
                }
            }
        }
        let _ = ResizingSystem.run(&mut self.cameras, &mut self.config, &self.size, &mut self.gpu);
        assert(staged(read, *old(self), *self, matrices@, fresh, ledger, built, before_views));
        assert(loaded_below(
            old(self).models@,
            old(self).renderers@,
            self.renderers@,
            old(self).renderers@.len() as int,
        ));
        Ok(loaded)
    }

    /// The last stage of a cycle: records the frame from what the stages
    /// before it have built, as [`RenderSystem::run`] does with the shader
    /// of the application. `status` says how the attempt to get a frame
    /// from the surface ended.
    pub fn render(&self, status: FrameStatus) -> (frame: Result<Frame, RenderError>)
        ensures
            status != FrameStatus::Ready ==> frame == Err::<Frame, RenderError>(
                RenderError::SurfaceUnavailable { status },
            ),
            status == FrameStatus::Ready ==> match frame_draws(
                self.renderers@,
                self.transforms@,
                self.shader.pipeline,
                self.renderers@.len() as int,
            ) {
                Ok(draws) => frame.is_ok() && frame.unwrap().commands@ == draws
                    && frame.unwrap().clear@ == CLEAR_COLOR@,
                Err(entity) => frame == Err::<Frame, RenderError>(
                    RenderError::ResourceBindingMissing { entity },
                ),
            },
    {
        RenderSystem.run(&self.renderers, &self.transforms, &self.shader, status)
    }

    /// Takes note of how the attempt to get a frame from the surface ended,
    /// and says what is to be done about a surface that gave none: see
    /// [`recovery`]. A surface that gave a frame needs nothing.
    pub fn after_frame(&mut self, status: FrameStatus) -> (action: Option<Recovery>)
        ensures
            *final(self) == (Application {
                failed_before: status != FrameStatus::Ready,
                ..*old(self)
            }),
            action == if status == FrameStatus::Ready {
                None
            } else {
                Some(recovery(status, old(self).failed_before))
            },
    {
        if status == FrameStatus::Ready {
            self.failed_before = false;
            None
        } else {
            let action = RenderSystem::recover(status, self.failed_before);
            self.failed_before = true;
            Some(action)
        }
    }

    /// After the stages that prepare a frame have succeeded with a camera
    /// in use, every entity that has a renderer with a material and a
    /// transform has what it is drawn with, so that the frame is recorded
    /// when the surface gives one.
    pub proof fn lemma_prepared_frame_is_recorded(
        renderers: Seq<Option<Renderer>>,
        transforms: Seq<Option<Transform>>,
        pipeline: Handle,
    )
        requires
            settled(scene(renderers)),
            scene_bound(scene(renderers), renderers.len() as int),
            all_viewed(renderers, transforms),
            forall|id: int|
                0 <= id < renderers.len() && (#[trigger] renderers[id]).is_some() && slot(
                    transforms,
                    id,
                ).is_some() ==> renderers[id].unwrap().materials@.len() > 0,
        ensures
            frame_draws(renderers, transforms, pipeline, renderers.len() as int).is_ok(),
    {
        assert forall|id: int|
            0 <= id < renderers.len() && (#[trigger] renderers[id]).is_some() && slot(
                transforms,
                id,
            ).is_some() implies {
            let renderer = renderers[id].unwrap();
            &&& renderer.materials@.len() > 0
            &&& renderer.materials@[0].diffuse_bind.is_some()
            &&& transforms[id].unwrap().bind.is_some()
            &&& forall|i: int|
                0 <= i < renderer.meshes@.len() ==> mesh_draws(
                    #[trigger] renderer.meshes@[i],
                ).is_some()
        } by {
            let renderer = renderers[id].unwrap();
            let view = scene(renderers)[id].unwrap();
            assert(scene(renderers)[id].is_some());
            assert(all_bound(view.materials, view.materials.len() as int));
            assert(view.materials[0].diffuse_bind.is_some());
            assert forall|i: int| 0 <= i < renderer.meshes@.len() implies mesh_draws(
                #[trigger] renderer.meshes@[i],
            ).is_some() by {
                assert(!view.meshes[i].needs_rebuild());
            }
        }
        lemma_drawable_world_draws(renderers, transforms, pipeline, renderers.len() as int);
    }

    /// Renderers that the model stage has dealt with below `n`, and that
    /// describe the same since, are loaded below `n`.
    proof fn lemma_loaded_below(
        models: Seq<Option<ModelFile>>,
        before: Seq<Option<Renderer>>,
        fresh: Seq<Option<Renderer>>,
        after: Seq<Option<Renderer>>,
        n: int,
    )
        requires
            imported_below(models, before, fresh, n),
            after.len() == fresh.len(),
            forall|id: int|
                0 <= id < fresh.len() ==> same_description(fresh[id], #[trigger] after[id]),
        ensures
            loaded_below(models, before, after, n),
    {
        assert forall|id: int| 0 <= id < before.len() implies if id < n && awaits_import(
            models,
            scene(before),
            id,
        ) {
            loaded_from(#[trigger] after[id], models[id].unwrap().file@)
        } else {
            same_description(before[id], #[trigger] after[id])
        } by {
            assert(same_description(fresh[id], after[id]));
            if id < n && awaits_import(models, scene(before), id) {
                assert(fresh_import(fresh[id], models[id].unwrap().file@));
            } else {
                assert(fresh[id] == before[id]);
            }
        }
    }

    /// Renderers that are loaded below `n` stay so while they describe the
    /// same.
    proof fn lemma_loaded_below_stays(
        models: Seq<Option<ModelFile>>,
        before: Seq<Option<Renderer>>,
        middle: Seq<Option<Renderer>>,
        after: Seq<Option<Renderer>>,
        n: int,
    )
        requires
            loaded_below(models, before, middle, n),
            after.len() == middle.len(),
            forall|id: int|
                0 <= id < middle.len() ==> same_description(middle[id], #[trigger] after[id]),
        ensures
            loaded_below(models, before, after, n),
    {
        assert forall|id: int| 0 <= id < before.len() implies if id < n && awaits_import(
            models,
            scene(before),
            id,
        ) {
            loaded_from(#[trigger] after[id], models[id].unwrap().file@)
        } else {
            same_description(before[id], #[trigger] after[id])
        } by {
            assert(same_description(middle[id], after[id]));
            if id < n && awaits_import(models, scene(before), id) {
                let file = models[id].unwrap().file@;
                let fresh = choose|fresh: Option<Renderer>|
                    #[trigger] fresh_import(fresh, file) && same_description(fresh, middle[id]);
                lemma_same_description_chains(fresh, middle[id], after[id]);
            } else {
                lemma_same_description_chains(before[id], middle[id], after[id]);
            }
        }
    }

    /// Renderers whose meshes were brought up to date describe what they
    /// described.
    proof fn lemma_build_keeps_descriptions(
        sources: Seq<Option<Renderer>>,
        built: Seq<Option<Renderer>>,
        start: GpuView,
        ledger: GpuView,
    )
        requires
            scene_up_to_date(scene(sources), scene(built), start, ledger),
            built.len() == sources.len(),
        ensures
            forall|id: int|
                0 <= id < sources.len() ==> same_description(sources[id], #[trigger] built[id]),
    {
        assert forall|id: int| 0 <= id < sources.len() implies same_description(
            sources[id],
            #[trigger] built[id],
        ) by {
            assert(scene(built)[id].is_some() == built[id].is_some());
            if let Some(source) = sources[id] {
                assert(scene(sources)[id] == Some(source@));
                let after = built[id].unwrap();
                assert(meshes_up_to_date(source.meshes@, after.meshes@, start, ledger));
                assert forall|i: int| 0 <= i < source.meshes@.len() implies same_mesh(
                    source.meshes@[i],
                    #[trigger] after.meshes@[i],
                ) by {
                    assert(up_to_date(source.meshes@[i], after.meshes@[i], ledger));
                }
            }
        }
    }

    /// Renderers whose materials were bound describe what they described.
    proof fn lemma_bind_keeps_descriptions(
        before: Seq<Option<Renderer>>,
        after: Seq<Option<Renderer>>,
    )
        requires
            scene_kept(before, after),
        ensures
            forall|id: int|
                0 <= id < before.len() ==> same_description(before[id], #[trigger] after[id]),
    {
        assert forall|id: int| 0 <= id < before.len() implies same_description(
            before[id],
            #[trigger] after[id],
        ) by {
            if let Some(source) = before[id] {
                let bound = after[id].unwrap();
                assert(all_kept(source.materials@, bound.materials@));
                assert forall|i: int| 0 <= i < source.materials@.len() implies same_material(
                    source.materials@[i],
                    #[trigger] bound.materials@[i],
                ) by {
                    assert(kept(source.materials@[i], bound.materials@[i]));
                }
            }
        }
    }

    /// A report stays true of renderers that keep the numbers of their
    /// meshes and materials.
    proof fn lemma_reports_stay(
        loaded: Seq<Loaded>,
        entities: Seq<Entity>,
        before: Seq<Option<Renderer>>,
        after: Seq<Option<Renderer>>,
    )
        requires
            reports(loaded, entities, before),
            after.len() == before.len(),
            forall|id: int|
                0 <= id < before.len() && before[id].is_some() ==> (#[trigger] after[id]).is_some()
                    && after[id].unwrap().meshes@.len() == before[id].unwrap().meshes@.len()
                    && after[id].unwrap().materials@.len()
                    == before[id].unwrap().materials@.len(),
        ensures
            reports(loaded, entities, after),
    {
        assert forall|k: int| 0 <= k < loaded.len() implies {
            let entry = #[trigger] loaded[k];
            let renderer = slot(after, entry.entity.id as int);
            &&& entry.entity == entities[k]
            &&& renderer.is_some()
            &&& entry.meshes == renderer.unwrap().meshes@.len()
            &&& entry.materials == renderer.unwrap().materials@.len()
        } by {
            let id = loaded[k].entity.id as int;
            assert(slot(before, id).is_some());
            assert(after[id].is_some());
        }
    }

    /// Where binding stopped at a material without bind group, there was
    /// something to do before the stages began: the file of its entity was
    /// to be loaded, or the material had no bind group then.
    proof fn lemma_unbound_was_due(
        models: Seq<Option<ModelFile>>,
        before: Seq<Option<Renderer>>,
        imported: Seq<Option<Renderer>>,
        built: Seq<Option<Renderer>>,
        after: Seq<Option<Renderer>>,
        path: Seq<char>,
    )
        requires
            imported_below(models, before, imported, before.len() as int),
            built.len() == imported.len(),
            forall|id: int|
                0 <= id < imported.len() && imported[id].is_some() ==> (#[trigger] built[id]).is_some()
                    && built[id].unwrap().materials@ == imported[id].unwrap().materials@,
            forall|id: int|
                0 <= id < imported.len() && imported[id].is_none() ==> (
                #[trigger] built[id]).is_none(),
            scene_stopped(built, after, path),
        ensures
            work_due(models, before),
    {
        let id = choose|id: int|
            {
                &&& 0 <= id < built.len()
                &&& (#[trigger] built[id]).is_some()
                &&& after[id].is_some()
                &&& stopped_binding(
                    built[id].unwrap().materials@,
                    after[id].unwrap().materials@,
                    path,
                )
            };
        if !awaits_import(models, scene(before), id) {
            let materials = built[id].unwrap().materials@;
            let i = choose|i: int|
                0 <= i < materials.len() && (#[trigger] materials[i]).diffuse_bind.is_none();
            assert(imported[id].is_some());
            assert(imported[id] == before[id]);
            assert(scene(before)[id].is_some());
            assert(scene(before)[id].unwrap().materials[i].diffuse_bind.is_none());
            assert(!all_bound(
                scene(before)[id].unwrap().materials,
                scene(before)[id].unwrap().materials.len() as int,
            ));
        }
    }

    /// Renderers that the model stage has dealt with have meshes that fit a
    /// draw call, if they had before.
    proof fn lemma_import_keeps_wf(
        models: Seq<Option<ModelFile>>,
        before: Seq<Option<Renderer>>,
        after: Seq<Option<Renderer>>,
        n: int,
    )
        requires
            meshes_wf(scene(before)),
            imported_below(models, before, after, n),
        ensures
            meshes_wf(scene(after)),
    {
        let now = scene(after);
        assert forall|id: int, i: int|
            0 <= id < now.len() && now[id].is_some() && 0 <= i < now[id].unwrap().meshes.len() implies (
        #[trigger] now[id].unwrap().meshes[i]).wf() by {
            if after[id] == before[id] {
                assert(scene(before)[id].unwrap().meshes[i].wf());
            } else {
                assert(ready(after[id].unwrap()));
                assert(after[id].unwrap().meshes@[i].wf());
            }
        }
    }

    /// Renderers whose meshes were all brought up to date are settled, and
    /// their meshes fit a draw call.
    proof fn lemma_built_is_settled(
        sources: Seq<Option<RendererView>>,
        built: Seq<Option<RendererView>>,
        start: GpuView,
        ledger: GpuView,
    )
        requires
            meshes_wf(sources),
            scene_up_to_date(sources, built, start, ledger),
        ensures
            settled(built),
            meshes_wf(built),
    {
        assert forall|id: int, i: int|
            0 <= id < built.len() && built[id].is_some() && 0 <= i
                < built[id].unwrap().meshes.len() implies !(
        #[trigger] built[id].unwrap().meshes[i]).needs_rebuild() && built[id].unwrap().meshes[i].wf() by {
            let source = sources[id].unwrap();
            assert(meshes_up_to_date(source.meshes, built[id].unwrap().meshes, start, ledger));
            assert(up_to_date(source.meshes[i], built[id].unwrap().meshes[i], ledger));
            assert(sources[id].unwrap().meshes[i].wf());
        }
    }

    /// Renderers that keep their meshes stay settled, and their meshes fit a
    /// draw call.
    proof fn lemma_binding_keeps_meshes(before: Seq<Option<Renderer>>, after: Seq<Option<Renderer>>)
        requires
            settled(scene(before)),
            meshes_wf(scene(before)),
            scene_kept(before, after),
        ensures
            settled(scene(after)),
            meshes_wf(scene(after)),
            forall|id: int|
                0 <= id < before.len() && before[id].is_some() ==> (#[trigger] after[id]).is_some()
                    && after[id].unwrap().meshes@.len() == before[id].unwrap().meshes@.len()
                    && after[id].unwrap().materials@.len()
                    == before[id].unwrap().materials@.len(),
    {
        let now = scene(after);
        assert forall|id: int, i: int|
            0 <= id < now.len() && now[id].is_some() && 0 <= i < now[id].unwrap().meshes.len() implies !(
        #[trigger] now[id].unwrap().meshes[i]).needs_rebuild() && now[id].unwrap().meshes[i].wf() by {
            assert(after[id].is_some());
            assert(scene(before)[id].unwrap().meshes[i].wf());
            assert(!scene(before)[id].unwrap().meshes[i].needs_rebuild());
        }
        assert forall|id: int| 0 <= id < before.len() && before[id].is_some() implies (
        #[trigger] after[id]).is_some() && after[id].unwrap().meshes@.len()
            == before[id].unwrap().meshes@.len() && after[id].unwrap().materials@.len()
            == before[id].unwrap().materials@.len() by {
            assert(all_kept(before[id].unwrap().materials@, after[id].unwrap().materials@));
        }
    }
}

} // verus!
