//! The stage that hands every drawn entity the matrix of the camera.
use crate::components::rendering::{Camera, CameraUniform, Renderer, Transform};
use crate::gpu::{extends, Binding, BufferUsage, Command, CommandView, Gpu, GpuView, Handle};
use crate::store::{join, joined, slot, Entity, Storage};
use vstd::prelude::*;

verus! {

/// Uploads the matrix of each drawn entity and builds the bind group that
/// hands it to the shader.
pub struct CameraSystem;

/// What the stage is about to do: `eye` is the entity whose camera is used,
/// and `subjects` are the entities that get a matrix, in the order in which
/// the stage takes them.
#[derive(Clone, PartialEq, Eq, Debug)]
pub struct ViewPlan {
    pub eye: Entity,
    pub subjects: Vec<Entity>,
}

/// The stage was handed another number of matrices than it has subjects.
#[derive(Clone, Copy, PartialEq, Eq, Structural, Debug)]
pub struct ProjectionCount {
    pub expected: usize,
    pub given: usize,
}

/// The entity whose camera is used: the first that has a camera and a
/// transform. Cameras of other entities are not used.
pub open spec fn eye(cameras: Seq<Option<Camera>>, transforms: Seq<Option<Transform>>) -> Option<
    Entity,
> {
    if joined(cameras, transforms).len() > 0 {
        Some(joined(cameras, transforms)[0])
    } else {
        None
    }
}

/// The sixteen words of a matrix as they lie in a uniform buffer: column
/// after column.
pub open spec fn matrix_words(matrix: [[u32; 4]; 4]) -> Seq<u32> {
    Seq::new(16, |i: int| matrix@[i / 4]@[i % 4])
}

/// What the stage asks of the device for one entity, when the ledger stands
/// at `gpu`: the bind group that the entity has is released, a uniform
/// buffer with the matrix is created and a bind group with that buffer at
/// binding 0, and the buffer, which now belongs to the bind group, is
/// released.
pub open spec fn view_commands(
    transform: Transform,
    matrix: [[u32; 4]; 4],
    layout: Handle,
    gpu: GpuView,
) -> Seq<CommandView> {
    let released = match transform.bind {
        Some(handle) => seq![CommandView::Release { handle }],
        None => Seq::empty(),
    };
    let buffer = Handle { batch: gpu.batch, index: (gpu.commands.len() + released.len()) as usize };
    released + seq![
        CommandView::CreateBuffer {
            label: "Camera Buffer"@,
            usage: BufferUsage::Uniform,
            contents: matrix_words(matrix),
        },
        CommandView::CreateBindGroup {
            label: "transform_bind_group"@,
            layout,
            entries: seq![Binding::Buffer(buffer)],
        },
        CommandView::Release { handle: buffer },
    ]
}

/// The transform of an entity after the stage has seen it, when the ledger
/// stood at `gpu`: it holds the new bind group.
pub open spec fn viewed(transform: Transform, gpu: GpuView) -> Transform {
    let released: int = if transform.bind.is_some() {
        1
    } else {
        0
    };
    Transform {
        bind: Some(
            Handle { batch: gpu.batch, index: (gpu.commands.len() + released + 1) as usize },
        ),
        ..transform
    }
}

/// The transforms and the ledger after the stage has seen the first `n` of
/// `subjects`, each with the matrix of the same number. A subject without a
/// transform is passed over.
pub open spec fn view_all(
    transforms: Seq<Option<Transform>>,
    subjects: Seq<Entity>,
    matrices: Seq<[[u32; 4]; 4]>,
    layout: Handle,
    gpu: GpuView,
    n: int,
) -> (Seq<Option<Transform>>, GpuView)
    decreases n,
{
    if n <= 0 {
        (transforms, gpu)
    } else {
        let (done, ledger) = view_all(transforms, subjects, matrices, layout, gpu, n - 1);
        let id = subjects[n - 1].id as int;
        if 0 <= id < done.len() && done[id].is_some() {
            (
                done.update(id, Some(viewed(done[id].unwrap(), ledger))),
                ledger.issue_all(view_commands(done[id].unwrap(), matrices[n - 1], layout, ledger)),
            )
        } else {
            (done, ledger)
        }
    }
}

/// The stage only ever appends to the ledger.
pub proof fn lemma_view_all_grows(
    transforms: Seq<Option<Transform>>,
    subjects: Seq<Entity>,
    matrices: Seq<[[u32; 4]; 4]>,
    layout: Handle,
    gpu: GpuView,
    n: int,
)
    ensures
        extends(gpu, view_all(transforms, subjects, matrices, layout, gpu, n).1),
    decreases n,
{
    if n > 0 {
        lemma_view_all_grows(transforms, subjects, matrices, layout, gpu, n - 1);
    }
}

/// Every entity that has a renderer and a transform has a bind group for
/// its matrix.
pub open spec fn all_viewed(
    renderers: Seq<Option<Renderer>>,
    transforms: Seq<Option<Transform>>,
) -> bool {
    forall|id: int|
        0 <= id < renderers.len() && renderers[id].is_some() && slot(transforms, id).is_some()
            ==> (#[trigger] transforms[id]).unwrap().bind.is_some()
}

/// `after` are the transforms `before`, each where it was and as it was
/// but for the bind group, which it has if it had one.
pub open spec fn placed_as(before: Seq<Option<Transform>>, after: Seq<Option<Transform>>) -> bool {
    &&& after.len() == before.len()
    &&& forall|id: int|
        0 <= id < before.len() ==> match before[id] {
            Some(transform) => {
                &&& (#[trigger] after[id]).is_some()
                &&& after[id].unwrap().position == transform.position
                &&& after[id].unwrap().rotation == transform.rotation
                &&& after[id].unwrap().scale == transform.scale
                &&& transform.bind.is_some() ==> after[id].unwrap().bind.is_some()
            },
            None => (#[trigger] after[id]).is_none(),
        }
}

/// The stage keeps every transform where it is and as it is, but for the
/// bind group, and the transform of each of the first `n` subjects that has
/// one comes out with a bind group.
pub proof fn lemma_view_all_binds(
    transforms: Seq<Option<Transform>>,
    subjects: Seq<Entity>,
    matrices: Seq<[[u32; 4]; 4]>,
    layout: Handle,
    gpu: GpuView,
    n: int,
)
    requires
        0 <= n <= subjects.len(),
    ensures
        ({
            let done = view_all(transforms, subjects, matrices, layout, gpu, n).0;
            &&& placed_as(transforms, done)
            &&& forall|k: int|
                0 <= k < n && slot(transforms, subjects[k].id as int).is_some() ==> (
                #[trigger] done[subjects[k].id as int]).unwrap().bind.is_some()
        }),
    decreases n,
{
    if n > 0 {
        lemma_view_all_binds(transforms, subjects, matrices, layout, gpu, n - 1);
        let before = view_all(transforms, subjects, matrices, layout, gpu, n - 1).0;
        let done = view_all(transforms, subjects, matrices, layout, gpu, n).0;
        assert forall|k: int|
            0 <= k < n && slot(transforms, subjects[k].id as int).is_some() implies (
        #[trigger] done[subjects[k].id as int]).unwrap().bind.is_some() by {
            if k < n - 1 {
                assert(before[subjects[k].id as int].unwrap().bind.is_some());
            }
        }
    }
}

impl CameraSystem {
    /// Says whose camera the stage will use and which entities will get a
    /// matrix, in order: those that have a renderer and a transform. It is
    /// `None` where no entity has a camera and a transform; the stage then
    /// does nothing.
    pub fn plan(
        &self,
        cameras: &Storage<Camera>,
        transforms: &Storage<Transform>,
        renderers: &Storage<Renderer>,
    ) -> (plan: Option<ViewPlan>)
        ensures
            plan.is_some() == eye(cameras@, transforms@).is_some(),
            plan matches Some(plan) ==> Some(plan.eye) == eye(cameras@, transforms@)
                && plan.subjects@ == joined(renderers@, transforms@),
    {
        let eyes = join(cameras, transforms);
        if eyes.len() == 0 {
            return None;
        }
        Some(ViewPlan { eye: eyes[0], subjects: join(renderers, transforms) })
    }

    /// Uploads `matrix` for one entity and binds it: see [`view_commands`]
    /// and [`viewed`].
    pub fn bind(transform: &mut Transform, matrix: [[u32; 4]; 4], layout: Handle, gpu: &mut Gpu)
        ensures
            *final(transform) == viewed(*old(transform), old(gpu)@),
            final(gpu)@ == old(gpu)@.issue_all(
                view_commands(*old(transform), matrix, layout, old(gpu)@),
            ),
    {
        if let Some(handle) = transform.bind {
            gpu.release(handle);
        }
        let mut uniform = CameraUniform::new();
        uniform.set_projection(matrix);
        let words = uniform.words();
        assert(words@ =~= matrix_words(matrix));
        let buffer = gpu.create_buffer("Camera Buffer".to_owned(), BufferUsage::Uniform, words);
        let mut entries: Vec<Binding> = Vec::new();
        entries.push(Binding::Buffer(buffer.handle));
        assert(entries@ =~= seq![Binding::Buffer(buffer.handle)]);
        let bind = gpu.issue(
            Command::CreateBindGroup { label: "transform_bind_group".to_owned(), layout, entries },
        );
        gpu.release(buffer.handle);
        transform.bind = Some(bind);
        assert(gpu@.commands =~= old(gpu)@.commands + view_commands(
            *old(transform),
            matrix,
            layout,
            old(gpu)@,
        ));
    }

    /// One cycle of the stage.
    ///
    /// The camera of the first entity that has a camera and a transform is
    /// the one in use. Every entity that has a renderer and a transform
    /// gets, in rising order of id, the matrix of its number in `matrices`
    /// uploaded and bound, whether it had one before or not. With no camera
    /// in use nothing is done. With a camera in use and another number of
    /// matrices than entities to give them to, nothing is done and the
    /// numbers are handed back.
    pub fn run(
        &self,
        cameras: &Storage<Camera>,
        transforms: &mut Storage<Transform>,
        renderers: &Storage<Renderer>,
        matrices: &Vec<[[u32; 4]; 4]>,
        layout: Handle,
        gpu: &mut Gpu,
    ) -> (done: Result<(), ProjectionCount>)
        ensures
            final(transforms).pending() == old(transforms).pending(),
            final(transforms)@.len() == old(transforms)@.len(),
            eye(cameras@, old(transforms)@).is_none() ==> {
                &&& done.is_ok()
                &&& final(transforms)@ == old(transforms)@
                &&& final(gpu)@ == old(gpu)@
            },
            eye(cameras@, old(transforms)@).is_some() && matrices@.len() != joined(
                renderers@,
                old(transforms)@,
            ).len() ==> {
                &&& done == Err::<(), ProjectionCount>(
                    ProjectionCount {
                        expected: joined(renderers@, old(transforms)@).len() as usize,
                        given: matrices@.len() as usize,
                    },
                )
                &&& final(transforms)@ == old(transforms)@
                &&& final(gpu)@ == old(gpu)@
            },
            eye(cameras@, old(transforms)@).is_some() && matrices@.len() == joined(
                renderers@,
                old(transforms)@,
            ).len() ==> {
                &&& done.is_ok()
                &&& (final(transforms)@, final(gpu)@) == view_all(
                    old(transforms)@,
                    joined(renderers@, old(transforms)@),
                    matrices@,
                    layout,
                    old(gpu)@,
                    matrices@.len() as int,
                )
            },
    {
        let plan = match self.plan(cameras, transforms, renderers) {
            Some(plan) => plan,
            None => {
                return Ok(());
            },
        };
        if plan.subjects.len() != matrices.len() {
            return Err(ProjectionCount { expected: plan.subjects.len(), given: matrices.len() });
        }
        let mut k: usize = 0;
        while k < plan.subjects.len()
            invariant
                k <= plan.subjects@.len(),
                plan.subjects@.len() == matrices@.len(),
                transforms.pending() == old(transforms).pending(),
                transforms@.len() == old(transforms)@.len(),
                (transforms@, gpu@) == view_all(
                    old(transforms)@,
                    plan.subjects@,
                    matrices@,
                    layout,
                    old(gpu)@,
                    k as int,
                ),
            decreases plan.subjects@.len() - k,
        {
            let id = plan.subjects[k].id;
            let ghost before = transforms@;
            if id < transforms.slots.len() {
                match &mut transforms.slots[id] {
                    Some(transform) => {
                        Self::bind(transform, matrices[k], layout, gpu);
                    },
                    None => {},
                }
            }
            assert(transforms@ =~= view_all(
                old(transforms)@,
                plan.subjects@,
                matrices@,
                layout,
                old(gpu)@,
                k + 1,
            ).0);
            k = k + 1;
        }
        Ok(())
    }
}

} // verus!
