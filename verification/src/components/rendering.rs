//! What is drawn and from where: models, meshes, materials, cameras and
//! transforms.
//!
//! Every real number is kept as the bit pattern of an IEEE 754
//! single-precision float, in a `u32`. The engine moves these numbers about
//! and lays them out in buffers; it never calculates with them.
use crate::gpu::{
    Buffer, BufferUsage, CommandView, Gpu, GpuView, Handle, VertexAttribute, VertexBufferLayout,
    VertexBufferLayoutView, VertexFormat, VertexStepMode,
};
use crate::store::{slot, without, Entity, Storage};
use vstd::prelude::*;
use vstd::string::StringExecFns;

verus! {

/// The bit pattern of `0.0`.
pub const ZERO: u32 = 0x0000_0000;

/// The bit pattern of `1.0`.
pub const ONE: u32 = 0x3F80_0000;

/// The number of 32-bit words in one vertex.
pub const VERTEX_WORDS: usize = 8;

/// A reference to a 3D asset file that an entity is to be drawn from: the
/// model of the entity, as opposed to a `tobj::Model`, which is one mesh of
/// a parsed file.
#[derive(Clone, PartialEq, Eq, Debug, Default)]
pub struct ModelFile {
    pub file: String,
}

/// One corner of a mesh.
#[derive(Clone, Copy, PartialEq, Eq, Debug)]
pub struct Vertex {
    pub position: [u32; 3],
    pub tex_coords: [u32; 2],
    pub normal: [u32; 3],
}

impl Vertex {
    /// The words of this vertex as they lie in a vertex buffer: position,
    /// texture coordinates, normal.
    pub open spec fn spec_words(self) -> Seq<u32> {
        self.position@ + self.tex_coords@ + self.normal@
    }

    /// The words of this vertex as they lie in a vertex buffer.
    pub fn words(&self) -> (words: [u32; 8])
        ensures
            words@ == self.spec_words(),
    {
        let words = [
            self.position[0],
            self.position[1],
            self.position[2],
            self.tex_coords[0],
            self.tex_coords[1],
            self.normal[0],
            self.normal[1],
            self.normal[2],
        ];
        assert(words@ =~= self.spec_words());
        words
    }

    /// How vertices lie in a vertex buffer: one after the other, 32 bytes
    /// each, the position at shader location 0, the texture coordinates at 1
    /// and the normal at 2.
    pub fn descriptor() -> (layout: VertexBufferLayout)
        ensures
            layout@ == vertex_layout(),
            layout.array_stride == 4 * VERTEX_WORDS,
    {
        let layout = VertexBufferLayout {
            array_stride: 32,
            step_mode: VertexStepMode::Vertex,
            attributes: [
                VertexAttribute { format: VertexFormat::Float32x3, offset: 0, shader_location: 0 },
                VertexAttribute { format: VertexFormat::Float32x2, offset: 12, shader_location: 1 },
                VertexAttribute { format: VertexFormat::Float32x3, offset: 20, shader_location: 2 },
            ],
        };
        proof {
            let formats =
                seq![VertexFormat::Float32x3, VertexFormat::Float32x2, VertexFormat::Float32x3];
            reveal_with_fuel(packed, 4);
            reveal_with_fuel(packed_size, 4);
            assert(layout.attributes@ =~= packed(formats, 3));
        }
        layout
    }
}

/// The layout of the vertices in a vertex buffer: position, texture
/// coordinates and normal without gaps, and the next vertex right behind.
pub open spec fn vertex_layout() -> VertexBufferLayoutView {
    let formats = seq![VertexFormat::Float32x3, VertexFormat::Float32x2, VertexFormat::Float32x3];
    VertexBufferLayoutView {
        array_stride: packed_size(formats, 3) as u64,
        step_mode: VertexStepMode::Vertex,
        attributes: packed(formats, 3),
    }
}

/// The number of bytes that an attribute of `format` takes.
pub open spec fn format_size(format: VertexFormat) -> nat {
    match format {
        VertexFormat::Float32x2 => 8,
        VertexFormat::Float32x3 => 12,
    }
}

/// The number of bytes that the first `n` of `formats` take together.
pub open spec fn packed_size(formats: Seq<VertexFormat>, n: nat) -> nat
    decreases n,
{
    if n == 0 {
        0
    } else {
        packed_size(formats, (n - 1) as nat) + format_size(formats[n - 1])
    }
}

/// The first `n` of `formats` as attributes without gaps: each starts where
/// the one before it ends, and attribute `i` is at shader location `i`.
pub open spec fn packed(formats: Seq<VertexFormat>, n: nat) -> Seq<VertexAttribute>
    decreases n,
{
    if n == 0 {
        Seq::empty()
    } else {
        packed(formats, (n - 1) as nat).push(
            VertexAttribute {
                format: formats[n - 1],
                offset: packed_size(formats, (n - 1) as nat) as u64,
                shader_location: (n - 1) as u32,
            },
        )
    }
}

/// The words of `vertices` as they lie in a vertex buffer: vertex after
/// vertex, eight words each.
pub open spec fn vertex_words(vertices: Seq<Vertex>) -> Seq<u32> {
    Seq::new(8 * vertices.len(), |i: int| vertices[i / 8].spec_words()[i % 8])
}

/// Lays `vertices` out as the words of a vertex buffer.
pub fn flatten(vertices: &Vec<Vertex>) -> (words: Vec<u32>)
    ensures
        words@ == vertex_words(vertices@),
{
    let mut words: Vec<u32> = Vec::new();
    let mut i: usize = 0;
    while i < vertices.len()
        invariant
            i <= vertices@.len(),
            words@ == vertex_words(vertices@.take(i as int)),
        decreases vertices@.len() - i,
    {
        let one = vertices[i].words();
        let ghost before = words@;
        let mut k: usize = 0;
        while k < 8
            invariant
                k <= 8,
                i < vertices@.len(),
                one@ == vertices@[i as int].spec_words(),
                one@.len() == 8,
                before == vertex_words(vertices@.take(i as int)),
                words@ == before + one@.take(k as int),
            decreases 8 - k,
        {
            words.push(one[k]);
            assert(words@ =~= before + one@.take(k + 1));
            k = k + 1;
        }
        assert(words@ =~= vertex_words(vertices@.take(i + 1))) by {
            let next = vertex_words(vertices@.take(i + 1));
            assert(words@.len() == next.len());
            assert forall|j: int| 0 <= j < next.len() implies words@[j] == next[j] by {
                if j < 8 * i {
                    assert(vertices@.take(i as int)[j / 8] == vertices@.take(i + 1)[j / 8]);
                } else {
                    assert(j / 8 == i);
                }
            }
        }
        i = i + 1;
    }
    assert(vertices@.take(vertices@.len() as int) =~= vertices@);
    words
}

/// A triangle mesh and the buffers that were built from it.
///
/// `vertices` and `indices` describe the mesh. `vertex_buffer`,
/// `index_buffer` and `num_elements` are what the device was last given; they
/// are stale when a buffer is missing or `num_elements` is no longer the
/// number of indices.
#[derive(Clone, PartialEq, Eq, Debug)]
pub struct Mesh {
    pub name: String,
    pub vertices: Vec<Vertex>,
    pub indices: Vec<u32>,
    pub vertex_buffer: Option<Buffer>,
    pub index_buffer: Option<Buffer>,
    pub num_elements: u32,
    pub material: usize,
}

/// The releases of the buffers in `slots` that are there, in order.
pub open spec fn releases(slots: Seq<Option<Buffer>>) -> Seq<CommandView>
    decreases slots.len(),
{
    if slots.len() == 0 {
        Seq::empty()
    } else {
        let before = releases(slots.drop_last());
        match slots.last() {
            Some(buffer) => before.push(CommandView::Release { handle: buffer.handle }),
            None => before,
        }
    }
}

impl Mesh {
    /// The index count fits the 32-bit count of a draw call, and the words
    /// of the vertices can be counted.
    pub open spec fn wf(&self) -> bool {
        &&& self.indices@.len() <= u32::MAX
        &&& 8 * self.vertices@.len() <= usize::MAX
    }

    /// The buffers are missing or were built from another number of indices.
    pub open spec fn needs_rebuild(&self) -> bool {
        self.vertex_buffer.is_none() || self.index_buffer.is_none() || self.num_elements
            != self.indices@.len()
    }

    /// The label of the vertex buffer.
    pub open spec fn vertex_label(&self) -> Seq<char> {
        self.name@ + " Vertex Buffer"@
    }

    /// The label of the index buffer.
    pub open spec fn index_label(&self) -> Seq<char> {
        self.name@ + " Index Buffer"@
    }

    /// What a rebuild asks of the device: the buffers that are there are
    /// released, vertex buffer first, then a vertex buffer with the words of
    /// the vertices is created and an index buffer with the indices.
    pub open spec fn rebuild_commands(&self) -> Seq<CommandView> {
        releases(seq![self.vertex_buffer, self.index_buffer]).push(
            CommandView::CreateBuffer {
                label: self.vertex_label(),
                usage: BufferUsage::Vertex,
                contents: vertex_words(self.vertices@),
            },
        ).push(
            CommandView::CreateBuffer {
                label: self.index_label(),
                usage: BufferUsage::Index,
                contents: self.indices@,
            },
        )
    }

    /// This mesh after a rebuild on the ledger `gpu`: it holds the two new
    /// buffers and the number of indices they were built from.
    pub open spec fn rebuilt(&self, gpu: GpuView) -> Mesh {
        let after = gpu.issue_all(self.rebuild_commands());
        Mesh {
            vertex_buffer: Some(
                Buffer {
                    handle: Handle { batch: gpu.batch, index: (after.commands.len() - 2) as usize },
                    len: (8 * self.vertices@.len()) as usize,
                },
            ),
            index_buffer: Some(
                Buffer {
                    handle: Handle { batch: gpu.batch, index: (after.commands.len() - 1) as usize },
                    len: self.indices@.len() as usize,
                },
            ),
            num_elements: self.indices@.len() as u32,
            ..*self
        }
    }

    /// This mesh after the builder has seen it.
    pub open spec fn step(&self, gpu: GpuView) -> Mesh {
        if self.needs_rebuild() {
            self.rebuilt(gpu)
        } else {
            *self
        }
    }

    /// The ledger after the builder has seen this mesh.
    pub open spec fn step_gpu(&self, gpu: GpuView) -> GpuView {
        if self.needs_rebuild() {
            gpu.issue_all(self.rebuild_commands())
        } else {
            gpu
        }
    }

    /// Whether the buffers are missing or stale.
    pub fn is_stale(&self) -> (stale: bool)
        ensures
            stale == self.needs_rebuild(),
    {
        match (self.vertex_buffer, self.index_buffer) {
            (Some(_), Some(_)) => {
                let count: usize = self.num_elements as usize;
                count != self.indices.len()
            },
            _ => true,
        }
    }

    /// Brings the buffers up to date: does nothing when they are, and else
    /// releases them and builds new ones from the vertices and indices as
    /// they are now.
    pub fn build(&mut self, gpu: &mut Gpu)
        requires
            old(self).wf(),
        ensures
            *final(self) == old(self).step(old(gpu)@),
            final(gpu)@ == old(self).step_gpu(old(gpu)@),
    {
        if !self.is_stale() {
            return ;
        }
        proof {
            reveal_with_fuel(releases, 3);
        }
        let ghost slots = seq![self.vertex_buffer, self.index_buffer];
        assert(slots.drop_last() =~= seq![self.vertex_buffer]);
        assert(slots.drop_last().drop_last() =~= Seq::<Option<Buffer>>::empty());
        if let Some(buffer) = self.vertex_buffer {
            gpu.release(buffer.handle);
        }
        if let Some(buffer) = self.index_buffer {
            gpu.release(buffer.handle);
        }
        assert(gpu@.commands =~= old(gpu)@.commands + releases(slots));
        let words = flatten(&self.vertices);
        let vertex_label = self.name.clone().concat(" Vertex Buffer");
        let vertex_buffer = gpu.create_buffer(vertex_label, BufferUsage::Vertex, words);
        let index_label = self.name.clone().concat(" Index Buffer");
        let index_buffer = gpu.create_buffer(index_label, BufferUsage::Index, self.indices.clone());
        assert(gpu@.commands =~= old(gpu)@.commands + old(self).rebuild_commands());
        self.vertex_buffer = Some(vertex_buffer);
        self.index_buffer = Some(index_buffer);
        self.num_elements = self.indices.len() as u32;
    }
}

/// A material of an entity, of which the engine uses the diffuse texture,
/// and the bind group that was built for that texture; as opposed to a
/// `tobj::Material`, which is an entry of a parsed material library.
#[derive(Clone, PartialEq, Eq, Debug)]
pub struct DiffuseMaterial {
    pub name: String,
    pub diffuse_texture: String,
    pub diffuse_bind: Option<Handle>,
}

/// What an entity is drawn with: its meshes and the materials they refer to.
#[derive(Clone, PartialEq, Eq, Debug)]
pub struct Renderer {
    pub meshes: Vec<Mesh>,
    pub materials: Vec<DiffuseMaterial>,
}

impl Default for Renderer {
    /// A renderer with nothing to draw.
    fn default() -> (renderer: Renderer)
        ensures
            renderer.meshes@.len() == 0,
            renderer.materials@.len() == 0,
    {
        Renderer { meshes: Vec::new(), materials: Vec::new() }
    }
}

/// A [`Renderer`] as a mathematical value.
pub struct RendererView {
    pub meshes: Seq<Mesh>,
    pub materials: Seq<DiffuseMaterial>,
}

impl View for Renderer {
    type V = RendererView;

    open spec fn view(&self) -> RendererView {
        RendererView { meshes: self.meshes@, materials: self.materials@ }
    }
}

/// The releases of the buffers of `meshes[0..n]`, mesh after mesh, for each
/// the vertex buffer first.
pub open spec fn mesh_releases(meshes: Seq<Mesh>, n: int) -> Seq<CommandView>
    decreases n,
{
    if n <= 0 {
        Seq::empty()
    } else {
        mesh_releases(meshes, n - 1) + releases(
            seq![meshes[n - 1].vertex_buffer, meshes[n - 1].index_buffer],
        )
    }
}

/// The releases of the bind groups of `materials[0..n]`, in order.
pub open spec fn bind_releases(materials: Seq<DiffuseMaterial>, n: int) -> Seq<CommandView>
    decreases n,
{
    if n <= 0 {
        Seq::empty()
    } else {
        match materials[n - 1].diffuse_bind {
            Some(handle) => bind_releases(materials, n - 1).push(CommandView::Release { handle }),
            None => bind_releases(materials, n - 1),
        }
    }
}

impl RendererView {
    /// The releases of everything that was built for this renderer: the
    /// buffers of its meshes, then the bind groups of its materials.
    pub open spec fn releases(self) -> Seq<CommandView> {
        mesh_releases(self.meshes, self.meshes.len() as int) + bind_releases(
            self.materials,
            self.materials.len() as int,
        )
    }

    /// Nothing was built for this renderer yet, and every mesh of it fits a
    /// draw call.
    pub open spec fn unbuilt(self) -> bool {
        &&& forall|i: int|
            0 <= i < self.meshes.len() ==> {
                let mesh = #[trigger] self.meshes[i];
                mesh.wf() && mesh.vertex_buffer.is_none() && mesh.index_buffer.is_none()
            }
        &&& forall|i: int|
            0 <= i < self.materials.len() ==> (#[trigger] self.materials[i]).diffuse_bind.is_none()
    }
}

impl Renderer {
    /// Tells the device that nothing built for this renderer is in use any
    /// longer.
    pub fn release(&self, gpu: &mut Gpu)
        ensures
            final(gpu)@ == old(gpu)@.issue_all(self@.releases()),
    {
        let mut i: usize = 0;
        while i < self.meshes.len()
            invariant
                i <= self.meshes@.len(),
                gpu@ == old(gpu)@.issue_all(mesh_releases(self.meshes@, i as int)),
            decreases self.meshes@.len() - i,
        {
            let ghost before = gpu@;
            let ghost slots = seq![self.meshes@[i as int].vertex_buffer, self.meshes@[i as int].index_buffer];
            proof {
                reveal_with_fuel(releases, 3);
                assert(slots.drop_last() =~= seq![self.meshes@[i as int].vertex_buffer]);
                assert(slots.drop_last().drop_last() =~= Seq::<Option<Buffer>>::empty());
            }
            if let Some(buffer) = self.meshes[i].vertex_buffer {
                gpu.release(buffer.handle);
            }
            if let Some(buffer) = self.meshes[i].index_buffer {
                gpu.release(buffer.handle);
            }
            assert(gpu@.commands =~= before.commands + releases(slots));
            assert(gpu@.commands =~= old(gpu)@.commands + mesh_releases(self.meshes@, i + 1));
            i = i + 1;
        }
        let ghost midway = gpu@;
        let mut k: usize = 0;
        while k < self.materials.len()
            invariant
                k <= self.materials@.len(),
                gpu@ == midway.issue_all(bind_releases(self.materials@, k as int)),
            decreases self.materials@.len() - k,
        {
            if let Some(handle) = self.materials[k].diffuse_bind {
                gpu.release(handle);
            }
            assert(gpu@.commands =~= midway.commands + bind_releases(self.materials@, k + 1));
            k = k + 1;
        }
        assert(gpu@.commands =~= old(gpu)@.commands + self@.releases());
    }
}

/// The releases of what was built for the renderers that go when the first
/// `n` of `doomed` are carried out, in that order.
pub open spec fn retired_renderers(
    slots: Seq<Option<Renderer>>,
    doomed: Seq<Entity>,
    n: int,
) -> Seq<CommandView>
    decreases n,
{
    if n <= 0 {
        Seq::empty()
    } else {
        let before = retired_renderers(slots, doomed, n - 1);
        match slot(without(slots, doomed, n - 1), doomed[n - 1].id as int) {
            Some(renderer) => before + renderer@.releases(),
            None => before,
        }
    }
}

/// The releases of the bind groups of the transforms that go when the first
/// `n` of `doomed` are carried out, in that order.
pub open spec fn retired_transforms(
    slots: Seq<Option<Transform>>,
    doomed: Seq<Entity>,
    n: int,
) -> Seq<CommandView>
    decreases n,
{
    if n <= 0 {
        Seq::empty()
    } else {
        let before = retired_transforms(slots, doomed, n - 1);
        match slot(without(slots, doomed, n - 1), doomed[n - 1].id as int) {
            Some(transform) => match transform.bind {
                Some(handle) => before.push(CommandView::Release { handle }),
                None => before,
            },
            None => before,
        }
    }
}

/// Carries out the removals that were noted for `renderers`, and tells the
/// device that what was built for the renderers that go is no longer in
/// use.
pub fn retire_renderers(renderers: &mut Storage<Renderer>, gpu: &mut Gpu)
    ensures
        final(renderers)@ == without(
            old(renderers)@,
            old(renderers).pending(),
            old(renderers).pending().len() as int,
        ),
        final(renderers).pending() == Seq::<Entity>::empty(),
        final(gpu)@ == old(gpu)@.issue_all(
            retired_renderers(
                old(renderers)@,
                old(renderers).pending(),
                old(renderers).pending().len() as int,
            ),
        ),
{
    let ghost slots = renderers@;
    let ghost doomed = renderers.pending();
    let ghost ledger = gpu@;
    let mut k: usize = 0;
    while k < renderers.doomed.len()
        invariant
            slots == old(renderers)@,
            doomed == old(renderers).pending(),
            ledger == old(gpu)@,
            renderers.doomed@ == doomed,
            k <= doomed.len(),
            renderers.slots@ == without(slots, doomed, k as int),
            gpu@ == ledger.issue_all(retired_renderers(slots, doomed, k as int)),
        decreases doomed.len() - k,
    {
        let id = renderers.doomed[k].id;
        if id < renderers.slots.len() {
            let mut gone = None;
            std::mem::swap(&mut renderers.slots[id], &mut gone);
            if let Some(renderer) = gone {
                renderer.release(gpu);
            }
        }
        assert(gpu@.commands =~= ledger.commands + retired_renderers(slots, doomed, k + 1));
        k = k + 1;
    }
    renderers.doomed.clear();
}

/// Carries out the removals that were noted for `transforms`, and tells the
/// device that the bind groups of the transforms that go are no longer in
/// use.
pub fn retire_transforms(transforms: &mut Storage<Transform>, gpu: &mut Gpu)
    ensures
        final(transforms)@ == without(
            old(transforms)@,
            old(transforms).pending(),
            old(transforms).pending().len() as int,
        ),
        final(transforms).pending() == Seq::<Entity>::empty(),
        final(gpu)@ == old(gpu)@.issue_all(
            retired_transforms(
                old(transforms)@,
                old(transforms).pending(),
                old(transforms).pending().len() as int,
            ),
        ),
{
    let ghost slots = transforms@;
    let ghost doomed = transforms.pending();
    let ghost ledger = gpu@;
    let mut k: usize = 0;
    while k < transforms.doomed.len()
        invariant
            slots == old(transforms)@,
            doomed == old(transforms).pending(),
            ledger == old(gpu)@,
            transforms.doomed@ == doomed,
            k <= doomed.len(),
            transforms.slots@ == without(slots, doomed, k as int),
            gpu@ == ledger.issue_all(retired_transforms(slots, doomed, k as int)),
        decreases doomed.len() - k,
    {
        let id = transforms.doomed[k].id;
        if id < transforms.slots.len() {
            let mut gone = None;
            std::mem::swap(&mut transforms.slots[id], &mut gone);
            if let Some(transform) = gone {
                if let Some(handle) = transform.bind {
                    gpu.release(handle);
                }
            }
        }
        assert(gpu@.commands =~= ledger.commands + retired_transforms(slots, doomed, k + 1));
        k = k + 1;
    }
    transforms.doomed.clear();
}

/// `b` describes the mesh that `a` describes, whatever is built for either.
pub open spec fn same_mesh(a: Mesh, b: Mesh) -> bool {
    &&& b.name == a.name
    &&& b.vertices == a.vertices
    &&& b.indices == a.indices
    &&& b.material == a.material
}

/// `b` describes the material that `a` describes, whatever is built for
/// either.
pub open spec fn same_material(a: DiffuseMaterial, b: DiffuseMaterial) -> bool {
    &&& b.name == a.name
    &&& b.diffuse_texture == a.diffuse_texture
}

/// `b` is there if `a` is, and then describes what `a` describes: the same
/// meshes and the same materials, whatever is built for them.
pub open spec fn same_description(a: Option<Renderer>, b: Option<Renderer>) -> bool {
    match a {
        Some(a) => {
            &&& b.is_some()
            &&& b.unwrap().meshes@.len() == a.meshes@.len()
            &&& b.unwrap().materials@.len() == a.materials@.len()
            &&& forall|i: int|
                0 <= i < a.meshes@.len() ==> same_mesh(a.meshes@[i], #[trigger] b.unwrap().meshes@[i])
            &&& forall|i: int|
                0 <= i < a.materials@.len() ==> same_material(
                    a.materials@[i],
                    #[trigger] b.unwrap().materials@[i],
                )
        },
        None => b.is_none(),
    }
}

/// What describes the same as something that describes the same as `a`
/// describes the same as `a`.
pub proof fn lemma_same_description_chains(
    a: Option<Renderer>,
    b: Option<Renderer>,
    c: Option<Renderer>,
)
    requires
        same_description(a, b),
        same_description(b, c),
    ensures
        same_description(a, c),
{
    if a.is_some() {
        let (a, b, c) = (a.unwrap(), b.unwrap(), c.unwrap());
        assert forall|i: int| 0 <= i < a.meshes@.len() implies same_mesh(
            a.meshes@[i],
            #[trigger] c.meshes@[i],
        ) by {
            assert(same_mesh(a.meshes@[i], b.meshes@[i]));
        }
        assert forall|i: int| 0 <= i < a.materials@.len() implies same_material(
            a.materials@[i],
            #[trigger] c.materials@[i],
        ) by {
            assert(same_material(a.materials@[i], b.materials@[i]));
        }
    }
}

/// The renderers of a storage as mathematical values, entity by entity.
pub open spec fn scene(slots: Seq<Option<Renderer>>) -> Seq<Option<RendererView>> {
    Seq::new(
        slots.len(),
        |id: int|
            match slots[id] {
                Some(renderer) => Some(renderer@),
                None => None,
            },
    )
}

/// The matrix that a camera hands to the vertex shader: four columns of four
/// numbers.
#[derive(Clone, Copy, PartialEq, Eq, Debug)]
pub struct CameraUniform {
    pub view_proj: [[u32; 4]; 4],
}

/// The entry in column `column` and row `row` of the identity matrix.
pub open spec fn identity_entry(column: int, row: int) -> u32 {
    if column == row {
        ONE
    } else {
        ZERO
    }
}

impl CameraUniform {
    /// The sixteen words of the matrix as they lie in a uniform buffer:
    /// column after column.
    pub open spec fn spec_words(self) -> Seq<u32> {
        Seq::new(16, |i: int| self.view_proj@[i / 4]@[i % 4])
    }

    /// The identity matrix.
    pub fn new() -> (uniform: CameraUniform)
        ensures
            forall|column: int, row: int|
                0 <= column < 4 && 0 <= row < 4 ==> uniform.view_proj@[column]@[row]
                    == identity_entry(column, row),
    {
        CameraUniform {
            view_proj: [
                [ONE, ZERO, ZERO, ZERO],
                [ZERO, ONE, ZERO, ZERO],
                [ZERO, ZERO, ONE, ZERO],
                [ZERO, ZERO, ZERO, ONE],
            ],
        }
    }

    /// Replaces the matrix by `projection`.
    pub fn set_projection(&mut self, projection: [[u32; 4]; 4])
        ensures
            final(self).view_proj == projection,
    {
        self.view_proj = projection;
    }

    /// The sixteen words of the matrix as they lie in a uniform buffer.
    pub fn words(&self) -> (words: Vec<u32>)
        ensures
            words@ == self.spec_words(),
    {
        let mut words: Vec<u32> = Vec::new();
        let mut column: usize = 0;
        while column < 4
            invariant
                column <= 4,
                words@.len() == 4 * column,
                forall|i: int| 0 <= i < words@.len() ==> words@[i] == self.view_proj@[i / 4]@[i % 4],
            decreases 4 - column,
        {
            let mut row: usize = 0;
            while row < 4
                invariant
                    column < 4,
                    row <= 4,
                    words@.len() == 4 * column + row,
                    forall|i: int|
                        0 <= i < words@.len() ==> words@[i] == self.view_proj@[i / 4]@[i % 4],
                decreases 4 - row,
            {
                words.push(self.view_proj[column][row]);
                row = row + 1;
            }
            column = column + 1;
        }
        assert(words@ =~= self.spec_words());
        words
    }
}

/// The shape of the picture: `width` to `height`.
#[derive(Clone, Copy, PartialEq, Eq, Structural, Debug)]
pub struct Aspect {
    pub width: u32,
    pub height: u32,
}

/// A camera. It looks from the position of its entity's transform at
/// `target`.
#[derive(Clone, Copy, PartialEq, Eq, Debug)]
pub struct Camera {
    pub target: [u32; 3],
    pub up: [u32; 3],
    pub aspect: Aspect,
    /// The vertical field of view, in degrees.
    pub fovy: u32,
    pub znear: u32,
    pub zfar: u32,
}

/// The bit pattern of `45.0`.
pub const FORTY_FIVE: u32 = 0x4234_0000;

/// The bit pattern of `0.001`.
pub const ONE_THOUSANDTH: u32 = 0x3A83_126F;

/// The bit pattern of `1000.0`.
pub const ONE_THOUSAND: u32 = 0x447A_0000;

impl Default for Camera {
    /// A camera that looks at the origin with the y axis up, a square
    /// picture, 45 degrees of view, and clip planes at 0.001 and 1000.
    fn default() -> (camera: Camera)
        ensures
            camera.target@ == seq![ZERO, ZERO, ZERO],
            camera.up@ == seq![ZERO, ONE, ZERO],
            camera.aspect == (Aspect { width: 1, height: 1 }),
            camera.fovy == FORTY_FIVE,
            camera.znear == ONE_THOUSANDTH,
            camera.zfar == ONE_THOUSAND,
    {
        let camera = Camera {
            target: [ZERO, ZERO, ZERO],
            up: [ZERO, ONE, ZERO],
            aspect: Aspect { width: 1, height: 1 },
            fovy: FORTY_FIVE,
            znear: ONE_THOUSANDTH,
            zfar: ONE_THOUSAND,
        };
        assert(camera.target@ =~= seq![ZERO, ZERO, ZERO]);
        assert(camera.up@ =~= seq![ZERO, ONE, ZERO]);
        camera
    }
}

/// Where an entity is, how it is turned and how it is scaled, and the bind
/// group that hands its matrix to the shader.
#[derive(Clone, Copy, PartialEq, Eq, Debug)]
pub struct Transform {
    pub position: [u32; 3],
    /// A unit quaternion: the vector part first, the scalar part last.
    pub rotation: [u32; 4],
    pub scale: [u32; 3],
    pub bind: Option<Handle>,
}

impl Default for Transform {
    /// At the origin, not turned, not scaled, with nothing built.
    fn default() -> (transform: Transform)
        ensures
            transform.position@ == seq![ZERO, ZERO, ZERO],
            transform.rotation@ == seq![ZERO, ZERO, ZERO, ONE],
            transform.scale@ == seq![ONE, ONE, ONE],
            transform.bind.is_none(),
    {
        let transform = Transform {
            position: [ZERO, ZERO, ZERO],
            rotation: [ZERO, ZERO, ZERO, ONE],
            scale: [ONE, ONE, ONE],
            bind: None,
        };
        assert(transform.position@ =~= seq![ZERO, ZERO, ZERO]);
        assert(transform.rotation@ =~= seq![ZERO, ZERO, ZERO, ONE]);
        assert(transform.scale@ =~= seq![ONE, ONE, ONE]);
        transform
    }
}

} // verus!
