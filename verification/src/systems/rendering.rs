//! The stage that draws.
use crate::components::rendering::{Mesh, Renderer, RendererView, Transform};
use crate::gpu::Handle;
use crate::material_manager::Shader;
use crate::store::{slot, Entity, Storage};
use vstd::prelude::*;

verus! {

/// Records the draw calls of a frame from what the builders have built.
pub struct RenderSystem;

/// How the attempt to get the next frame from the surface ended.
#[derive(Clone, Copy, PartialEq, Eq, Structural, Debug)]
pub enum FrameStatus {
    Ready,
    Timeout,
    Outdated,
    Lost,
    OutOfMemory,
}

/// The width of the indices in an index buffer.
#[derive(Clone, Copy, PartialEq, Eq, Structural, Debug)]
pub enum IndexFormat {
    Uint16,
    Uint32,
}

/// One step of a render pass.
#[derive(Clone, Copy, PartialEq, Eq, Structural, Debug)]
pub enum DrawCommand {
    SetPipeline { pipeline: Handle },
    SetBindGroup { slot: u32, group: Handle },
    SetVertexBuffer { slot: u32, buffer: Handle },
    SetIndexBuffer { buffer: Handle, format: IndexFormat },
    /// Draws one instance of the indices `0..count`.
    DrawIndexed { count: u32 },
}

/// Why no frame was recorded.
#[derive(Clone, Copy, PartialEq, Eq, Structural, Debug)]
pub enum RenderError {
    /// The surface gave no frame.
    SurfaceUnavailable { status: FrameStatus },
    /// Something that `entity` is drawn with was not built.
    ResourceBindingMissing { entity: Entity },
}

/// What to do about a surface that gave no frame.
#[derive(Clone, Copy, PartialEq, Eq, Structural, Debug)]
pub enum Recovery {
    /// Configure the surface again and try in the next cycle.
    Reconfigure,
    /// Give up.
    Fatal,
}

/// The red, green, blue and alpha of the colour that every frame is cleared
/// to: 0.1, 0.2, 0.3 and 1.0, as the bit patterns of IEEE 754
/// double-precision floats.
pub const CLEAR_COLOR: [u64; 4] = [
    0x3FB9_9999_9999_999A,
    0x3FC9_9999_9999_999A,
    0x3FD3_3333_3333_3333,
    0x3FF0_0000_0000_0000,
];

/// A recorded frame: the colour it is cleared to and the steps of its one
/// render pass.
#[derive(Clone, PartialEq, Eq, Debug)]
pub struct Frame {
    pub clear: [u64; 4],
    pub commands: Vec<DrawCommand>,
}

/// The steps that draw `mesh`. It is `None` where the mesh lacks a buffer:
/// such a mesh is not ready. A mesh that has its buffers and no elements
/// takes no step, and every other its vertex buffer at slot 0, its index
/// buffer with 32-bit indices, and one draw of all its elements.
pub open spec fn mesh_draws(mesh: Mesh) -> Option<Seq<DrawCommand>> {
    if mesh.vertex_buffer.is_none() || mesh.index_buffer.is_none() {
        None
    } else if mesh.num_elements == 0 {
        Some(Seq::empty())
    } else {
        Some(
            seq![
                DrawCommand::SetVertexBuffer { slot: 0, buffer: mesh.vertex_buffer.unwrap().handle },
                DrawCommand::SetIndexBuffer {
                    buffer: mesh.index_buffer.unwrap().handle,
                    format: IndexFormat::Uint32,
                },
                DrawCommand::DrawIndexed { count: mesh.num_elements },
            ],
        )
    }
}

/// The steps that draw `meshes[0..n]`, in order, or `None` where one of
/// them cannot be drawn.
pub open spec fn meshes_draws(meshes: Seq<Mesh>, n: int) -> Option<Seq<DrawCommand>>
    decreases n,
{
    if n <= 0 {
        Some(Seq::empty())
    } else {
        match (meshes_draws(meshes, n - 1), mesh_draws(meshes[n - 1])) {
            (Some(before), Some(draws)) => Some(before + draws),
            _ => None,
        }
    }
}

/// The steps that draw one entity: the pipeline, the bind group of its
/// first material at slot 0, the bind group of its transform at slot 1, and
/// then its meshes. It is `None` where the entity has no material, or the
/// material or the transform has no bind group, or a mesh cannot be drawn.
pub open spec fn entity_draws(renderer: RendererView, transform: Transform, pipeline: Handle) -> Option<
    Seq<DrawCommand>,
> {
    if renderer.materials.len() == 0 || renderer.materials[0].diffuse_bind.is_none()
        || transform.bind.is_none() {
        None
    } else {
        match meshes_draws(renderer.meshes, renderer.meshes.len() as int) {
            Some(draws) => Some(
                seq![
                    DrawCommand::SetPipeline { pipeline },
                    DrawCommand::SetBindGroup {
                        slot: 0,
                        group: renderer.materials[0].diffuse_bind.unwrap(),
                    },
                    DrawCommand::SetBindGroup { slot: 1, group: transform.bind.unwrap() },
                ] + draws,
            ),
            None => None,
        }
    }
}

/// The steps that draw the entities below `n` that have a renderer and a
/// transform, in rising order of id; or the first of them that cannot be
/// drawn.
pub open spec fn frame_draws(
    renderers: Seq<Option<Renderer>>,
    transforms: Seq<Option<Transform>>,
    pipeline: Handle,
    n: int,
) -> Result<Seq<DrawCommand>, Entity>
    decreases n,
{
    if n <= 0 {
        Ok(Seq::empty())
    } else {
        match frame_draws(renderers, transforms, pipeline, n - 1) {
            Err(entity) => Err(entity),
            Ok(before) => if slot(renderers, n - 1).is_some() && slot(transforms, n - 1).is_some() {
                match entity_draws(
                    slot(renderers, n - 1).unwrap()@,
                    slot(transforms, n - 1).unwrap(),
                    pipeline,
                ) {
                    Some(draws) => Ok(before + draws),
                    None => Err(Entity { id: (n - 1) as usize }),
                }
            } else {
                Ok(before)
            },
        }
    }
}

/// What to do about a surface that gave no frame: a surface that is lost
/// or outdated is configured again, unless the cycle before failed too;
/// everything else is fatal.
pub open spec fn recovery(status: FrameStatus, failed_before: bool) -> Recovery {
    if (status == FrameStatus::Lost || status == FrameStatus::Outdated) && !failed_before {
        Recovery::Reconfigure
    } else {
        Recovery::Fatal
    }
}

/// An entity that fails below `n` is the one that fails below any `m` not
/// less than `n`.
pub proof fn lemma_first_failure_stays(
    renderers: Seq<Option<Renderer>>,
    transforms: Seq<Option<Transform>>,
    pipeline: Handle,
    n: int,
    m: int,
)
    requires
        0 <= n <= m,
        frame_draws(renderers, transforms, pipeline, n).is_err(),
    ensures
        frame_draws(renderers, transforms, pipeline, m) == frame_draws(
            renderers,
            transforms,
            pipeline,
            n,
        ),
    decreases m - n,
{
    if n < m {
        lemma_first_failure_stays(renderers, transforms, pipeline, n, m - 1);
    }
}

/// Entities at or above the number of transforms add nothing to a frame.
pub proof fn lemma_draws_end(
    renderers: Seq<Option<Renderer>>,
    transforms: Seq<Option<Transform>>,
    pipeline: Handle,
    n: int,
    m: int,
)
    requires
        0 <= n <= m,
        n >= transforms.len() || n >= renderers.len(),
    ensures
        frame_draws(renderers, transforms, pipeline, m) == frame_draws(
            renderers,
            transforms,
            pipeline,
            n,
        ),
    decreases m - n,
{
    if n < m {
        lemma_draws_end(renderers, transforms, pipeline, n, m - 1);
        match frame_draws(renderers, transforms, pipeline, m - 1) {
            Ok(before) => {
                assert(before + Seq::<DrawCommand>::empty() =~= before);
            },
            Err(_) => {},
        }
    }
}

/// Every entity that has a renderer and a transform has what it is drawn
/// with: at least one material, the first of them with a bind group, a bind
/// group for its transform, and for every mesh its two buffers.
pub open spec fn drawable(
    renderers: Seq<Option<Renderer>>,
    transforms: Seq<Option<Transform>>,
) -> bool {
    forall|id: int|
        0 <= id < renderers.len() && (#[trigger] renderers[id]).is_some() && slot(
            transforms,
            id,
        ).is_some() ==> {
            let renderer = renderers[id].unwrap();
            &&& renderer.materials@.len() > 0
            &&& renderer.materials@[0].diffuse_bind.is_some()
            &&& transforms[id].unwrap().bind.is_some()
            &&& forall|i: int|
                0 <= i < renderer.meshes@.len() ==> mesh_draws(
                    #[trigger] renderer.meshes@[i],
                ).is_some()
        }
}

/// Meshes that can each be drawn can be drawn one after the other.
pub proof fn lemma_meshes_draw(meshes: Seq<Mesh>, n: int)
    requires
        0 <= n <= meshes.len(),
        forall|i: int| 0 <= i < meshes.len() ==> mesh_draws(#[trigger] meshes[i]).is_some(),
    ensures
        meshes_draws(meshes, n).is_some(),
    decreases n,
{
    if n > 0 {
        lemma_meshes_draw(meshes, n - 1);
    }
}

/// Where every entity that is drawn has what it is drawn with, the frame is
/// recorded: no entity fails it.
pub proof fn lemma_drawable_world_draws(
    renderers: Seq<Option<Renderer>>,
    transforms: Seq<Option<Transform>>,
    pipeline: Handle,
    n: int,
)
    requires
        0 <= n,
        drawable(renderers, transforms),
    ensures
        frame_draws(renderers, transforms, pipeline, n).is_ok(),
    decreases n,
{
    if n > 0 {
        lemma_drawable_world_draws(renderers, transforms, pipeline, n - 1);
        if slot(renderers, n - 1).is_some() && slot(transforms, n - 1).is_some() {
            let renderer = renderers[n - 1].unwrap();
            lemma_meshes_draw(renderer.meshes@, renderer.meshes@.len() as int);
        }
    }
}

impl RenderSystem {
    /// What to do about a surface that gave no frame.
    pub fn recover(status: FrameStatus, failed_before: bool) -> (action: Recovery)
        requires
            status != FrameStatus::Ready,
        ensures
            action == recovery(status, failed_before),
    {
        match status {
            FrameStatus::Lost | FrameStatus::Outdated => {
                if failed_before {
                    Recovery::Fatal
                } else {
                    Recovery::Reconfigure
                }
            },
            _ => Recovery::Fatal,
        }
    }

    /// Records the steps that draw the meshes of one entity.
    fn draw_meshes(meshes: &Vec<Mesh>, commands: &mut Vec<DrawCommand>) -> (complete: bool)
        ensures
            complete == meshes_draws(meshes@, meshes@.len() as int).is_some(),
            complete ==> final(commands)@ == old(commands)@ + meshes_draws(
                meshes@,
                meshes@.len() as int,
            ).unwrap(),
    {
        let mut i: usize = 0;
        while i < meshes.len()
            invariant
                i <= meshes@.len(),
                meshes_draws(meshes@, i as int).is_some(),
                commands@ == old(commands)@ + meshes_draws(meshes@, i as int).unwrap(),
            decreases meshes@.len() - i,
        {
            let mesh = &meshes[i];
            match (mesh.vertex_buffer, mesh.index_buffer) {
                (Some(vertex_buffer), Some(index_buffer)) => {
                    if mesh.num_elements != 0 {
                        commands.push(
                            DrawCommand::SetVertexBuffer { slot: 0, buffer: vertex_buffer.handle },
                        );
                        commands.push(
                            DrawCommand::SetIndexBuffer {
                                buffer: index_buffer.handle,
                                format: IndexFormat::Uint32,
                            },
                        );
                        commands.push(DrawCommand::DrawIndexed { count: mesh.num_elements });
                    }
                },
                _ => {
                    proof {
                        lemma_missing_mesh(meshes@, i + 1, meshes@.len() as int);
                    }
                    return false;
                },
            }
            assert(commands@ =~= old(commands)@ + meshes_draws(meshes@, i + 1).unwrap());
            i = i + 1;
        }
        true
    }

    /// One cycle of the stage.
    ///
    /// Without a frame from the surface nothing is recorded. With one, the
    /// entities that have a renderer and a transform are drawn in rising
    /// order of id, as [`entity_draws`] says, into a frame that is cleared
    /// to [`CLEAR_COLOR`]. The first entity that lacks something it is drawn
    /// with ends the cycle, and no frame is recorded.
    pub fn run(
        &self,
        renderers: &Storage<Renderer>,
        transforms: &Storage<Transform>,
        shader: &Shader,
        status: FrameStatus,
    ) -> (frame: Result<Frame, RenderError>)
        ensures
            status != FrameStatus::Ready ==> frame == Err::<Frame, RenderError>(
                RenderError::SurfaceUnavailable { status },
            ),
            status == FrameStatus::Ready ==> match frame_draws(
                renderers@,
                transforms@,
                shader.pipeline,
                renderers@.len() as int,
            ) {
                Ok(draws) => frame.is_ok() && frame.unwrap().commands@ == draws
                    && frame.unwrap().clear@ == CLEAR_COLOR@,
                Err(entity) => frame == Err::<Frame, RenderError>(
                    RenderError::ResourceBindingMissing { entity },
                ),
            },
    {
        if status != FrameStatus::Ready {
            return Err(RenderError::SurfaceUnavailable { status });
        }
        let pipeline = shader.pipeline;
        let n = if renderers.slots.len() < transforms.slots.len() {
            renderers.slots.len()
        } else {
            transforms.slots.len()
        };
        let mut commands: Vec<DrawCommand> = Vec::new();
        let mut id: usize = 0;
        while id < n
            invariant
                id <= n,
                n <= renderers@.len(),
                n <= transforms@.len(),
                n == renderers@.len() || n == transforms@.len(),
                pipeline == shader.pipeline,
                status == FrameStatus::Ready,
                frame_draws(renderers@, transforms@, pipeline, id as int) == Ok::<
                    Seq<DrawCommand>,
                    Entity,
                >(commands@),
            decreases n - id,
        {
            let ghost before = commands@;
            match (&renderers.slots[id], &transforms.slots[id]) {
                (Some(renderer), Some(transform)) => {
                    let material = if renderer.materials.len() == 0 {
                        None
                    } else {
                        renderer.materials[0].diffuse_bind
                    };
                    let complete = match (material, transform.bind) {
                        (Some(group), Some(bind)) => {
                            commands.push(DrawCommand::SetPipeline { pipeline });
                            commands.push(DrawCommand::SetBindGroup { slot: 0, group });
                            commands.push(DrawCommand::SetBindGroup { slot: 1, group: bind });
                            Self::draw_meshes(&renderer.meshes, &mut commands)
                        },
                        _ => false,
                    };
                    if !complete {
                        proof {
                            lemma_first_failure_stays(
                                renderers@,
                                transforms@,
                                pipeline,
                                id + 1,
                                renderers@.len() as int,
                            );
                        }
                        return Err(RenderError::ResourceBindingMissing { entity: Entity { id } });
                    }
                    assert(commands@ =~= before + entity_draws(
                        renderer@,
                        *transform,
                        pipeline,
                    ).unwrap());
                },
                _ => {},
            }
            id = id + 1;
        }
        proof {
            lemma_draws_end(renderers@, transforms@, pipeline, n as int, renderers@.len() as int);
        }
        Ok(Frame { clear: CLEAR_COLOR, commands })
    }
}

/// A mesh that cannot be drawn among the first `n` keeps the first `m` from
/// being drawn, for `m` not less than `n`.
pub proof fn lemma_missing_mesh(meshes: Seq<Mesh>, n: int, m: int)
    requires
        0 <= n <= m,
        meshes_draws(meshes, n).is_none(),
    ensures
        meshes_draws(meshes, m).is_none(),
    decreases m - n,
{
    if n < m {
        lemma_missing_mesh(meshes, n, m - 1);
    }
}

} // verus!
