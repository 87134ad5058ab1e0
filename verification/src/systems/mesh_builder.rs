//! The stage that keeps vertex and index buffers in step with the meshes.
use crate::components::rendering::{
    releases, scene, vertex_words, Mesh, Renderer, RendererView,
};
use crate::gpu::{extends, BufferUsage, CommandView, Gpu, GpuView};
use crate::store::Storage;
use vstd::prelude::*;

verus! {

/// Builds the buffers of every mesh that lacks them or has changed since
/// they were built.
pub struct MeshBuilderSystem;

/// The meshes and the ledger after the builder has seen the first `n` meshes,
/// in order.
pub open spec fn build_meshes(meshes: Seq<Mesh>, gpu: GpuView, n: int) -> (Seq<Mesh>, GpuView)
    decreases n,
{
    if n <= 0 {
        (meshes, gpu)
    } else {
        let (done, ledger) = build_meshes(meshes, gpu, n - 1);
        (done.update(n - 1, meshes[n - 1].step(ledger)), meshes[n - 1].step_gpu(ledger))
    }
}

/// The renderers and the ledger after the builder has seen the entities
/// below `n`, in rising order of id.
pub open spec fn build_scene(renderers: Seq<Option<RendererView>>, gpu: GpuView, n: int) -> (
    Seq<Option<RendererView>>,
    GpuView,
)
    decreases n,
{
    if n <= 0 {
        (renderers, gpu)
    } else {
        let (done, ledger) = build_scene(renderers, gpu, n - 1);
        match renderers[n - 1] {
            Some(renderer) => {
                let (meshes, after) = build_meshes(
                    renderer.meshes,
                    ledger,
                    renderer.meshes.len() as int,
                );
                (
                    done.update(
                        n - 1,
                        Some(RendererView { meshes, materials: renderer.materials }),
                    ),
                    after,
                )
            },
            None => (done, ledger),
        }
    }
}

/// Every mesh of every renderer fits a draw call.
pub open spec fn meshes_wf(renderers: Seq<Option<RendererView>>) -> bool {
    forall|id: int, i: int|
        0 <= id < renderers.len() && renderers[id].is_some() && 0 <= i
            < renderers[id].unwrap().meshes.len() ==> (#[trigger] renderers[id].unwrap().meshes[i]).wf()
}

/// `mesh` describes what `source` describes, and its buffers are up to date
/// and on record in `ledger`: the vertex buffer was created with the words of
/// the vertices, eight for each, and the index buffer with the indices.
pub open spec fn up_to_date(source: Mesh, mesh: Mesh, ledger: GpuView) -> bool {
    &&& mesh.name == source.name
    &&& mesh.vertices == source.vertices
    &&& mesh.indices == source.indices
    &&& mesh.material == source.material
    &&& !mesh.needs_rebuild()
    &&& mesh.num_elements == source.indices@.len()
    &&& source.needs_rebuild() ==> {
        let vertex_buffer = mesh.vertex_buffer.unwrap();
        let index_buffer = mesh.index_buffer.unwrap();
        &&& vertex_buffer.len == 8 * source.vertices@.len()
        &&& index_buffer.len == source.indices@.len()
        &&& vertex_buffer.handle != index_buffer.handle
        &&& ledger.knows(vertex_buffer.handle)
        &&& ledger.knows(index_buffer.handle)
        &&& vertex_buffer.handle.batch == ledger.batch
        &&& index_buffer.handle.batch == ledger.batch
        &&& ledger.commands[vertex_buffer.handle.index as int] == CommandView::CreateBuffer {
            label: source.vertex_label(),
            usage: BufferUsage::Vertex,
            contents: vertex_words(source.vertices@),
        }
        &&& ledger.commands[index_buffer.handle.index as int] == CommandView::CreateBuffer {
            label: source.index_label(),
            usage: BufferUsage::Index,
            contents: source.indices@,
        }
    }
    &&& !source.needs_rebuild() ==> mesh == source
}

/// The buffers of `mesh` are there, the vertex buffer with eight words for
/// each vertex and the index buffer with a word for each index, and the
/// number of indices is on record.
pub open spec fn sized(mesh: Mesh) -> bool {
    &&& mesh.vertex_buffer.is_some()
    &&& mesh.vertex_buffer.unwrap().len == 8 * mesh.vertices@.len()
    &&& mesh.index_buffer.is_some()
    &&& mesh.index_buffer.unwrap().len == mesh.indices@.len()
    &&& mesh.num_elements == mesh.indices@.len()
}

/// The buffers that the builder made for `source` are new to the ledger
/// `start`.
pub open spec fn fresh_for(source: Mesh, mesh: Mesh, start: GpuView) -> bool {
    source.needs_rebuild() ==> !start.knows(mesh.vertex_buffer.unwrap().handle) && !start.knows(
        mesh.index_buffer.unwrap().handle,
    )
}

/// `meshes` are `sources` brought up to date, with buffers that are on record
/// in `ledger` and new to `start`.
pub open spec fn meshes_up_to_date(
    sources: Seq<Mesh>,
    meshes: Seq<Mesh>,
    start: GpuView,
    ledger: GpuView,
) -> bool {
    &&& meshes.len() == sources.len()
    &&& forall|i: int|
        0 <= i < sources.len() ==> up_to_date(sources[i], #[trigger] meshes[i], ledger)
            && fresh_for(sources[i], meshes[i], start)
}

/// `renderers` are `sources` with every mesh brought up to date and nothing
/// else changed.
pub open spec fn scene_up_to_date(
    sources: Seq<Option<RendererView>>,
    renderers: Seq<Option<RendererView>>,
    start: GpuView,
    ledger: GpuView,
) -> bool {
    &&& renderers.len() == sources.len()
    &&& forall|id: int|
        0 <= id < sources.len() ==> match sources[id] {
            Some(source) => {
                &&& (#[trigger] renderers[id]).is_some()
                &&& renderers[id].unwrap().materials == source.materials
                &&& meshes_up_to_date(source.meshes, renderers[id].unwrap().meshes, start, ledger)
            },
            None => (#[trigger] renderers[id]).is_none(),
        }
}

/// No mesh of `renderers` needs a rebuild.
pub open spec fn settled(renderers: Seq<Option<RendererView>>) -> bool {
    forall|id: int, i: int|
        0 <= id < renderers.len() && renderers[id].is_some() && 0 <= i
            < renderers[id].unwrap().meshes.len() ==> !(
        #[trigger] renderers[id].unwrap().meshes[i]).needs_rebuild()
}

/// One step of the builder appends to the ledger, brings the mesh up to date,
/// and the buffers it makes are new to the ledger it started from.
pub proof fn lemma_step(mesh: Mesh, gpu: GpuView)
    requires
        mesh.wf(),
        mesh.step_gpu(gpu).commands.len() <= usize::MAX,
    ensures
        extends(gpu, mesh.step_gpu(gpu)),
        up_to_date(mesh, mesh.step(gpu), mesh.step_gpu(gpu)),
        fresh_for(mesh, mesh.step(gpu), gpu),
{
    if mesh.needs_rebuild() {
        let slots = seq![mesh.vertex_buffer, mesh.index_buffer];
        reveal_with_fuel(releases, 3);
        assert(slots.drop_last() =~= seq![mesh.vertex_buffer]);
        assert(slots.drop_last().drop_last() =~= Seq::empty());
    }
}

/// A mesh whose number of indices has changed since its buffers were built
/// gets new buffers: buffers that the ledger did not know before, an index
/// buffer as long as the indices are now, and the new number on record.
pub proof fn lemma_changed_mesh_is_rebuilt(mesh: Mesh, gpu: GpuView)
    requires
        mesh.wf(),
        mesh.num_elements != mesh.indices@.len(),
        mesh.step_gpu(gpu).commands.len() <= usize::MAX,
    ensures
        mesh.step(gpu).index_buffer.is_some(),
        mesh.step(gpu).index_buffer.unwrap().len == mesh.indices@.len(),
        mesh.step(gpu).vertex_buffer.is_some(),
        mesh.step(gpu).vertex_buffer.unwrap().len == 8 * mesh.vertices@.len(),
        mesh.step(gpu).num_elements == mesh.indices@.len(),
        !gpu.knows(mesh.step(gpu).index_buffer.unwrap().handle),
        !gpu.knows(mesh.step(gpu).vertex_buffer.unwrap().handle),
        mesh.step_gpu(gpu).knows(mesh.step(gpu).index_buffer.unwrap().handle),
        mesh.step_gpu(gpu).knows(mesh.step(gpu).vertex_buffer.unwrap().handle),
{
    lemma_step(mesh, gpu);
}

/// What was up to date in a ledger is up to date in every ledger that
/// extends it.
pub proof fn lemma_up_to_date_extends(source: Mesh, mesh: Mesh, ledger: GpuView, later: GpuView)
    requires
        up_to_date(source, mesh, ledger),
        extends(ledger, later),
    ensures
        up_to_date(source, mesh, later),
{
}

/// The builder brings the first `n` meshes up to date and leaves the others
/// as they are; it only ever appends to the ledger.
pub proof fn lemma_build_meshes(meshes: Seq<Mesh>, gpu: GpuView, n: int)
    requires
        forall|i: int| 0 <= i < meshes.len() ==> (#[trigger] meshes[i]).wf(),
        0 <= n <= meshes.len(),
        build_meshes(meshes, gpu, n).1.commands.len() <= usize::MAX,
    ensures
        build_meshes(meshes, gpu, n).0.len() == meshes.len(),
        extends(gpu, build_meshes(meshes, gpu, n).1),
        forall|i: int|
            0 <= i < n ==> up_to_date(
                meshes[i],
                #[trigger] build_meshes(meshes, gpu, n).0[i],
                build_meshes(meshes, gpu, n).1,
            ) && fresh_for(meshes[i], build_meshes(meshes, gpu, n).0[i], gpu),
        forall|i: int|
            n <= i < meshes.len() ==> #[trigger] build_meshes(meshes, gpu, n).0[i] == meshes[i],
    decreases n,
{
    if n > 0 {
        let (done, ledger) = build_meshes(meshes, gpu, n - 1);
        let (now, after) = build_meshes(meshes, gpu, n);
        let mesh = meshes[n - 1];
        assert(mesh.wf());
        assert(ledger.commands.len() <= after.commands.len());
        lemma_build_meshes(meshes, gpu, n - 1);
        lemma_step(mesh, ledger);
        assert forall|i: int| 0 <= i < n implies up_to_date(meshes[i], #[trigger] now[i], after)
            && fresh_for(meshes[i], now[i], gpu) by {
            if i < n - 1 {
                assert(now[i] == done[i]);
                lemma_up_to_date_extends(meshes[i], done[i], ledger, after);
            }
        }
    }
}

/// The builder changes nothing where no mesh needs a rebuild.
pub proof fn lemma_build_meshes_settled(meshes: Seq<Mesh>, gpu: GpuView, n: int)
    requires
        0 <= n <= meshes.len(),
        forall|i: int| 0 <= i < n ==> !(#[trigger] meshes[i]).needs_rebuild(),
    ensures
        build_meshes(meshes, gpu, n) == (meshes, gpu),
    decreases n,
{
    if n > 0 {
        lemma_build_meshes_settled(meshes, gpu, n - 1);
        assert(meshes.update(n - 1, meshes[n - 1]) =~= meshes);
    }
}

/// After one cycle every mesh of every entity is up to date: its buffers
/// hold the words of its vertices and its indices as they were when the
/// cycle began, their lengths are the counts of these, and a buffer that had
/// to be built is one that the ledger did not know before. Nothing but the
/// meshes has changed, and the ledger has only grown.
pub proof fn lemma_cycle_builds(renderers: Seq<Option<RendererView>>, gpu: GpuView, n: int)
    requires
        meshes_wf(renderers),
        0 <= n <= renderers.len(),
        build_scene(renderers, gpu, n).1.commands.len() <= usize::MAX,
    ensures
        extends(gpu, build_scene(renderers, gpu, n).1),
        scene_up_to_date(
            renderers.take(n),
            build_scene(renderers, gpu, n).0.take(n),
            gpu,
            build_scene(renderers, gpu, n).1,
        ),
        build_scene(renderers, gpu, n).0.len() == renderers.len(),
        forall|id: int|
            n <= id < renderers.len() ==> #[trigger] build_scene(renderers, gpu, n).0[id]
                == renderers[id],
    decreases n,
{
    if n > 0 {
        let (done, ledger) = build_scene(renderers, gpu, n - 1);
        let (now, after) = build_scene(renderers, gpu, n);
        match renderers[n - 1] {
            Some(renderer) => {
                assert forall|i: int| 0 <= i < renderer.meshes.len() implies (
                #[trigger] renderer.meshes[i]).wf() by {
                    assert(renderers[n - 1].unwrap().meshes[i].wf());
                }
                lemma_build_meshes_grows(renderer.meshes, ledger, renderer.meshes.len() as int);
                lemma_cycle_builds(renderers, gpu, n - 1);
                lemma_build_meshes(renderer.meshes, ledger, renderer.meshes.len() as int);
            },
            None => {
                lemma_cycle_builds(renderers, gpu, n - 1);
            },
        }
        let sources = renderers.take(n);
        let built = now.take(n);
        assert forall|id: int| 0 <= id < sources.len() implies match sources[id] {
            Some(source) => {
                &&& (#[trigger] built[id]).is_some()
                &&& built[id].unwrap().materials == source.materials
                &&& meshes_up_to_date(source.meshes, built[id].unwrap().meshes, gpu, after)
            },
            None => (#[trigger] built[id]).is_none(),
        } by {
            if id < n - 1 {
                assert(built[id] == done.take(n - 1)[id]);
                assert(sources[id] == renderers.take(n - 1)[id]);
                if let Some(source) = sources[id] {
                    let meshes = built[id].unwrap().meshes;
                    assert(meshes_up_to_date(source.meshes, meshes, gpu, ledger));
                    assert forall|i: int| 0 <= i < source.meshes.len() implies up_to_date(
                        source.meshes[i],
                        #[trigger] meshes[i],
                        after,
                    ) && fresh_for(source.meshes[i], meshes[i], gpu) by {
                        lemma_up_to_date_extends(source.meshes[i], meshes[i], ledger, after);
                    }
                }
            } else {
                if let Some(source) = sources[id] {
                    let meshes = built[id].unwrap().meshes;
                    assert forall|i: int| 0 <= i < source.meshes.len() implies up_to_date(
                        source.meshes[i],
                        #[trigger] meshes[i],
                        after,
                    ) && fresh_for(source.meshes[i], meshes[i], gpu) by {
                        assert(fresh_for(source.meshes[i], meshes[i], ledger));
                    }
                }
            }
        }
    }
}

/// The builder never shortens the ledger.
pub proof fn lemma_build_meshes_grows(meshes: Seq<Mesh>, gpu: GpuView, n: int)
    requires
        0 <= n <= meshes.len(),
    ensures
        gpu.commands.len() <= build_meshes(meshes, gpu, n).1.commands.len(),
    decreases n,
{
    if n > 0 {
        lemma_build_meshes_grows(meshes, gpu, n - 1);
    }
}

/// A cycle in which no mesh needs a rebuild changes nothing: no buffer is
/// made, and every handle stays what it was.
pub proof fn lemma_settled_cycle_is_idle(renderers: Seq<Option<RendererView>>, gpu: GpuView, n: int)
    requires
        settled(renderers),
        0 <= n <= renderers.len(),
    ensures
        build_scene(renderers, gpu, n) == (renderers, gpu),
    decreases n,
{
    if n > 0 {
        lemma_settled_cycle_is_idle(renderers, gpu, n - 1);
        match renderers[n - 1] {
            Some(renderer) => {
                assert forall|i: int| 0 <= i < renderer.meshes.len() implies !(
                #[trigger] renderer.meshes[i]).needs_rebuild() by {
                    assert(!renderers[n - 1].unwrap().meshes[i].needs_rebuild());
                }
                lemma_build_meshes_settled(renderer.meshes, gpu, renderer.meshes.len() as int);
                assert(renderers.update(n - 1, Some(renderer)) =~= renderers);
            },
            None => {},
        }
    }
}

/// Running the builder a second time, with no mesh changed in between,
/// changes nothing: the first cycle leaves every mesh settled.
pub proof fn lemma_second_cycle_is_idle(renderers: Seq<Option<RendererView>>, gpu: GpuView)
    requires
        meshes_wf(renderers),
        build_scene(renderers, gpu, renderers.len() as int).1.commands.len() <= usize::MAX,
    ensures
        ({
            let (built, ledger) = build_scene(renderers, gpu, renderers.len() as int);
            build_scene(built, ledger, built.len() as int) == (built, ledger)
        }),
{
    let n = renderers.len() as int;
    let (built, ledger) = build_scene(renderers, gpu, n);
    lemma_cycle_builds(renderers, gpu, n);
    assert(renderers.take(n) =~= renderers);
    assert(built.take(n) =~= built);
    assert forall|id: int, i: int|
        0 <= id < built.len() && built[id].is_some() && 0 <= i
            < built[id].unwrap().meshes.len() implies !(
    #[trigger] built[id].unwrap().meshes[i]).needs_rebuild() by {
        let source = renderers[id].unwrap();
        assert(meshes_up_to_date(source.meshes, built[id].unwrap().meshes, gpu, ledger));
        assert(up_to_date(source.meshes[i], built[id].unwrap().meshes[i], ledger));
    }
    lemma_settled_cycle_is_idle(built, ledger, n);
}

impl MeshBuilderSystem {
    /// Brings every mesh of `meshes` up to date, first to last.
    pub fn build_all(meshes: &mut Vec<Mesh>, gpu: &mut Gpu)
        requires
            forall|i: int| 0 <= i < old(meshes)@.len() ==> (#[trigger] old(meshes)@[i]).wf(),
        ensures
            (final(meshes)@, final(gpu)@) == build_meshes(
                old(meshes)@,
                old(gpu)@,
                old(meshes)@.len() as int,
            ),
    {
        let mut i: usize = 0;
        while i < meshes.len()
            invariant
                i <= meshes@.len(),
                meshes@.len() == old(meshes)@.len(),
                forall|j: int| 0 <= j < old(meshes)@.len() ==> (#[trigger] old(meshes)@[j]).wf(),
                forall|j: int| i <= j < meshes@.len() ==> meshes@[j] == old(meshes)@[j],
                (meshes@, gpu@) == build_meshes(old(meshes)@, old(gpu)@, i as int),
            decreases meshes@.len() - i,
        {
            assert(old(meshes)@[i as int].wf());
            meshes[i].build(gpu);
            i = i + 1;
        }
    }

    /// One cycle of the stage: visits the entities that have a renderer, in
    /// rising order of id, and brings every mesh up to date.
    pub fn run(&self, renderers: &mut Storage<Renderer>, gpu: &mut Gpu)
        requires
            meshes_wf(scene(old(renderers)@)),
        ensures
            (scene(final(renderers)@), final(gpu)@) == build_scene(
                scene(old(renderers)@),
                old(gpu)@,
                old(renderers)@.len() as int,
            ),
            final(renderers).pending() == old(renderers).pending(),
    {
        let ghost sources = scene(old(renderers)@);
        let mut id: usize = 0;
        while id < renderers.slots.len()
            invariant
                id <= renderers@.len(),
                renderers@.len() == old(renderers)@.len(),
                renderers.pending() == old(renderers).pending(),
                sources == scene(old(renderers)@),
                meshes_wf(sources),
                forall|j: int| id <= j < renderers@.len() ==> renderers@[j] == old(renderers)@[j],
                (scene(renderers@), gpu@) == build_scene(sources, old(gpu)@, id as int),
            decreases renderers@.len() - id,
        {
            let ghost before = scene(renderers@);
            match &mut renderers.slots[id] {
                Some(renderer) => {
                    assert forall|i: int| 0 <= i < renderer.meshes@.len() implies (
                    #[trigger] renderer.meshes@[i]).wf() by {
                        assert(sources[id as int].unwrap().meshes[i].wf());
                    }
                    Self::build_all(&mut renderer.meshes, gpu);
                },
                None => {},
            }
            assert(scene(renderers@) =~= build_scene(sources, old(gpu)@, id + 1).0);
            id = id + 1;
        }
    }
}

} // verus!
