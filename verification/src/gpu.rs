//! The graphics device as the engine sees it: a ledger of commands.
//!
//! Stages never talk to a device. They append commands to a [`Gpu`], and each
//! command that creates a resource is answered at once with a [`Handle`] that
//! names the resource from then on. Whoever owns the real device takes the
//! commands batch by batch and carries them out in order.
use vstd::prelude::*;

verus! {

/// Names a resource by the command that creates it: command number `index`
/// of batch number `batch`.
#[derive(Clone, Copy, PartialEq, Eq, Structural, Debug, Hash)]
pub struct Handle {
    pub batch: u64,
    pub index: usize,
}

/// What a buffer is bound as.
#[derive(Clone, Copy, PartialEq, Eq, Structural, Debug)]
pub enum BufferUsage {
    Vertex,
    Index,
    Uniform,
}

/// A buffer on the device, with its length in 32-bit words.
#[derive(Clone, Copy, PartialEq, Eq, Structural, Debug)]
pub struct Buffer {
    pub handle: Handle,
    pub len: usize,
}

/// The two bind group layouts that every pipeline of the engine shares.
#[derive(Clone, Copy, PartialEq, Eq, Structural, Debug)]
pub enum LayoutKind {
    /// Slot 0: a filterable 2D texture and its sampler, for the fragment stage.
    Texture,
    /// Slot 1: one uniform buffer, for the vertex stage.
    Camera,
}

/// One entry of a bind group. Entry `i` of a group is bound at binding `i`.
#[derive(Clone, Copy, PartialEq, Eq, Structural, Debug)]
pub enum Binding {
    TextureView(Handle),
    Sampler(Handle),
    Buffer(Handle),
}

/// How often a vertex buffer advances.
#[derive(Clone, Copy, PartialEq, Eq, Structural, Debug)]
pub enum VertexStepMode {
    Vertex,
    Instance,
}

/// The formats of the vertex attributes in use: two or three 32-bit floats.
#[derive(Clone, Copy, PartialEq, Eq, Structural, Debug)]
pub enum VertexFormat {
    Float32x2,
    Float32x3,
}

/// One attribute of a vertex: where it starts in the vertex and where the
/// shader finds it.
#[derive(Clone, Copy, PartialEq, Eq, Structural, Debug)]
pub struct VertexAttribute {
    pub format: VertexFormat,
    pub offset: u64,
    pub shader_location: u32,
}

/// How the vertices lie in a vertex buffer.
#[derive(Clone, Copy, PartialEq, Eq, Debug)]
pub struct VertexBufferLayout {
    pub array_stride: u64,
    pub step_mode: VertexStepMode,
    pub attributes: [VertexAttribute; 3],
}

/// The formats of texels in use: 8-bit red, green, blue and alpha, the
/// colours in sRGB.
#[derive(Clone, Copy, PartialEq, Eq, Structural, Debug)]
pub enum TextureFormat {
    Rgba8UnormSrgb,
}

/// What a texture is made as.
#[derive(Clone, Copy, PartialEq, Eq, Structural, Debug)]
pub struct TextureState {
    /// The number of dimensions: textures in use have two.
    pub dimensions: u32,
    pub format: TextureFormat,
    pub mip_level_count: u32,
    pub sample_count: u32,
    /// The texture can be bound for sampling.
    pub texture_binding: bool,
    /// The texture can be written to.
    pub copy_dst: bool,
}

/// A texel of a texture: where a write begins.
#[derive(Clone, Copy, PartialEq, Eq, Structural, Debug)]
pub struct Origin {
    pub x: u32,
    pub y: u32,
    pub z: u32,
}

/// What a sampler does with coordinates beyond the edge.
#[derive(Clone, Copy, PartialEq, Eq, Structural, Debug)]
pub enum AddressMode {
    ClampToEdge,
}

/// How a sampler picks between texels.
#[derive(Clone, Copy, PartialEq, Eq, Structural, Debug)]
pub enum FilterMode {
    Nearest,
    Linear,
}

/// What a sampler is made as.
#[derive(Clone, Copy, PartialEq, Eq, Structural, Debug)]
pub struct SamplerState {
    pub address_mode_u: AddressMode,
    pub address_mode_v: AddressMode,
    pub address_mode_w: AddressMode,
    pub mag_filter: FilterMode,
    pub min_filter: FilterMode,
    pub mipmap_filter: FilterMode,
}

/// How vertices make up primitives.
#[derive(Clone, Copy, PartialEq, Eq, Structural, Debug)]
pub enum PrimitiveTopology {
    TriangleList,
}

/// The winding of the front of a triangle.
#[derive(Clone, Copy, PartialEq, Eq, Structural, Debug)]
pub enum FrontFace {
    Ccw,
    Cw,
}

/// Which faces are not drawn.
#[derive(Clone, Copy, PartialEq, Eq, Structural, Debug)]
pub enum CullMode {
    Nothing,
    Front,
    Back,
}

/// How a fragment is put on what is there.
#[derive(Clone, Copy, PartialEq, Eq, Structural, Debug)]
pub enum BlendMode {
    Replace,
}

/// The format of a colour target.
#[derive(Clone, Copy, PartialEq, Eq, Structural, Debug)]
pub enum TargetFormat {
    /// The format that the surface is configured with.
    Surface,
}

/// What a render pipeline is made as, besides its shader and the layout of
/// its vertices.
#[derive(Clone, Copy, PartialEq, Eq, Structural, Debug)]
pub struct PipelineState {
    pub topology: PrimitiveTopology,
    pub front_face: FrontFace,
    pub cull_mode: CullMode,
    /// Whether there is a depth and stencil test.
    pub depth_stencil: bool,
    pub sample_count: u32,
    /// The one colour target.
    pub target: TargetFormat,
    pub blend: BlendMode,
    /// Whether all of red, green, blue and alpha are written.
    pub write_all: bool,
}

/// A texture as the engine makes them: two dimensions, sRGB colours, one
/// mip level, one sample, to be written once and sampled.
pub open spec fn sampled_texture() -> TextureState {
    TextureState {
        dimensions: 2,
        format: TextureFormat::Rgba8UnormSrgb,
        mip_level_count: 1,
        sample_count: 1,
        texture_binding: true,
        copy_dst: true,
    }
}

/// A sampler as the engine makes them: clamped to the edge on all three
/// axes, linear when magnifying, nearest when minifying and between mip
/// levels.
pub open spec fn clamped_sampler() -> SamplerState {
    SamplerState {
        address_mode_u: AddressMode::ClampToEdge,
        address_mode_v: AddressMode::ClampToEdge,
        address_mode_w: AddressMode::ClampToEdge,
        mag_filter: FilterMode::Linear,
        min_filter: FilterMode::Nearest,
        mipmap_filter: FilterMode::Nearest,
    }
}

/// A pipeline as the engine makes them: lists of triangles with the front
/// wound counter-clockwise, backs culled, no depth test, one sample, and
/// one colour target in the format of the surface, on which fragments
/// replace what is there in all four channels.
pub open spec fn opaque_triangles() -> PipelineState {
    PipelineState {
        topology: PrimitiveTopology::TriangleList,
        front_face: FrontFace::Ccw,
        cull_mode: CullMode::Back,
        depth_stencil: false,
        sample_count: 1,
        target: TargetFormat::Surface,
        blend: BlendMode::Replace,
        write_all: true,
    }
}

impl TextureState {
    /// A texture as the engine makes them.
    pub fn sampled() -> (state: TextureState)
        ensures
            state == sampled_texture(),
    {
        TextureState {
            dimensions: 2,
            format: TextureFormat::Rgba8UnormSrgb,
            mip_level_count: 1,
            sample_count: 1,
            texture_binding: true,
            copy_dst: true,
        }
    }
}

impl SamplerState {
    /// A sampler as the engine makes them.
    pub fn clamped() -> (state: SamplerState)
        ensures
            state == clamped_sampler(),
    {
        SamplerState {
            address_mode_u: AddressMode::ClampToEdge,
            address_mode_v: AddressMode::ClampToEdge,
            address_mode_w: AddressMode::ClampToEdge,
            mag_filter: FilterMode::Linear,
            min_filter: FilterMode::Nearest,
            mipmap_filter: FilterMode::Nearest,
        }
    }
}

impl PipelineState {
    /// A pipeline as the engine makes them.
    pub fn opaque() -> (state: PipelineState)
        ensures
            state == opaque_triangles(),
    {
        PipelineState {
            topology: PrimitiveTopology::TriangleList,
            front_face: FrontFace::Ccw,
            cull_mode: CullMode::Back,
            depth_stencil: false,
            sample_count: 1,
            target: TargetFormat::Surface,
            blend: BlendMode::Replace,
            write_all: true,
        }
    }
}

/// A [`VertexBufferLayout`] as a mathematical value.
pub struct VertexBufferLayoutView {
    pub array_stride: u64,
    pub step_mode: VertexStepMode,
    pub attributes: Seq<VertexAttribute>,
}

impl View for VertexBufferLayout {
    type V = VertexBufferLayoutView;

    open spec fn view(&self) -> VertexBufferLayoutView {
        VertexBufferLayoutView {
            array_stride: self.array_stride,
            step_mode: self.step_mode,
            attributes: self.attributes@,
        }
    }
}

/// One request to the device.
#[derive(Clone, PartialEq, Eq, Debug)]
pub enum Command {
    CreateBindGroupLayout { kind: LayoutKind },
    CreateShaderModule { label: String, source: String },
    CreatePipelineLayout { label: String, bind_group_layouts: Vec<Handle> },
    CreateRenderPipeline {
        label: String,
        layout: Handle,
        module: Handle,
        /// The entry point of the vertex stage in the module.
        vertex_entry: String,
        /// The entry point of the fragment stage in the module.
        fragment_entry: String,
        buffers: VertexBufferLayout,
        state: PipelineState,
    },
    CreateBuffer { label: String, usage: BufferUsage, contents: Vec<u32> },
    CreateTexture { label: String, width: u32, height: u32, state: TextureState },
    /// Writes `data` to the mip level `mip_level` of `texture`, from the
    /// texel `origin` on, `width` texels wide and `height` high; the data
    /// start `offset` bytes into `data`.
    WriteTexture {
        texture: Handle,
        mip_level: u32,
        origin: Origin,
        offset: u64,
        width: u32,
        height: u32,
        bytes_per_row: Option<u32>,
        rows_per_image: Option<u32>,
        data: Vec<u8>,
    },
    CreateTextureView { texture: Handle },
    CreateSampler { state: SamplerState },
    CreateBindGroup { label: String, layout: Handle, entries: Vec<Binding> },
    ConfigureSurface { width: u32, height: u32 },
    Release { handle: Handle },
}

/// A [`Command`] as a mathematical value.
pub enum CommandView {
    CreateBindGroupLayout { kind: LayoutKind },
    CreateShaderModule { label: Seq<char>, source: Seq<char> },
    CreatePipelineLayout { label: Seq<char>, bind_group_layouts: Seq<Handle> },
    CreateRenderPipeline {
        label: Seq<char>,
        layout: Handle,
        module: Handle,
        vertex_entry: Seq<char>,
        fragment_entry: Seq<char>,
        buffers: VertexBufferLayoutView,
        state: PipelineState,
    },
    CreateBuffer { label: Seq<char>, usage: BufferUsage, contents: Seq<u32> },
    CreateTexture { label: Seq<char>, width: u32, height: u32, state: TextureState },
    WriteTexture {
        texture: Handle,
        mip_level: u32,
        origin: Origin,
        offset: u64,
        width: u32,
        height: u32,
        bytes_per_row: Option<u32>,
        rows_per_image: Option<u32>,
        data: Seq<u8>,
    },
    CreateTextureView { texture: Handle },
    CreateSampler { state: SamplerState },
    CreateBindGroup { label: Seq<char>, layout: Handle, entries: Seq<Binding> },
    ConfigureSurface { width: u32, height: u32 },
    Release { handle: Handle },
}

impl View for Command {
    type V = CommandView;

    open spec fn view(&self) -> CommandView {
        match *self {
            Command::CreateBindGroupLayout { kind } => CommandView::CreateBindGroupLayout { kind },
            Command::CreateShaderModule { label, source } => CommandView::CreateShaderModule {
                label: label@,
                source: source@,
            },
            Command::CreatePipelineLayout {
                label,
                bind_group_layouts,
            } => CommandView::CreatePipelineLayout {
                label: label@,
                bind_group_layouts: bind_group_layouts@,
            },
            Command::CreateRenderPipeline {
                label,
                layout,
                module,
                vertex_entry,
                fragment_entry,
                buffers,
                state,
            } => CommandView::CreateRenderPipeline {
                label: label@,
                layout,
                module,
                vertex_entry: vertex_entry@,
                fragment_entry: fragment_entry@,
                buffers: buffers@,
                state,
            },
            Command::CreateBuffer { label, usage, contents } => CommandView::CreateBuffer {
                label: label@,
                usage,
                contents: contents@,
            },
            Command::CreateTexture { label, width, height, state } => CommandView::CreateTexture {
                label: label@,
                width,
                height,
                state,
            },
            Command::WriteTexture {
                texture,
                mip_level,
                origin,
                offset,
                width,
                height,
                bytes_per_row,
                rows_per_image,
                data,
            } => CommandView::WriteTexture {
                texture,
                mip_level,
                origin,
                offset,
                width,
                height,
                bytes_per_row,
                rows_per_image,
                data: data@,
            },
            Command::CreateTextureView { texture } => CommandView::CreateTextureView { texture },
            Command::CreateSampler { state } => CommandView::CreateSampler { state },
            Command::CreateBindGroup { label, layout, entries } => CommandView::CreateBindGroup {
                label: label@,
                layout,
                entries: entries@,
            },
            Command::ConfigureSurface { width, height } => CommandView::ConfigureSurface {
                width,
                height,
            },
            Command::Release { handle } => CommandView::Release { handle },
        }
    }
}

/// A [`Gpu`] as a mathematical value: the number of the batch being filled
/// and the commands in it so far.
pub struct GpuView {
    pub batch: u64,
    pub commands: Seq<CommandView>,
}

impl GpuView {
    /// The handle that the next command gets.
    pub open spec fn next(self) -> Handle {
        Handle { batch: self.batch, index: self.commands.len() as usize }
    }

    /// This ledger after one more command.
    pub open spec fn issue(self, command: CommandView) -> GpuView {
        GpuView { batch: self.batch, commands: self.commands.push(command) }
    }

    /// This ledger after several more commands.
    pub open spec fn issue_all(self, commands: Seq<CommandView>) -> GpuView {
        GpuView { batch: self.batch, commands: self.commands + commands }
    }

    /// `handle` was given out by this ledger or by an earlier batch of it.
    pub open spec fn knows(self, handle: Handle) -> bool {
        handle.batch < self.batch || (handle.batch == self.batch && handle.index
            < self.commands.len())
    }
}

/// `after` holds every command of `before`, at the same place.
pub open spec fn extends(before: GpuView, after: GpuView) -> bool {
    &&& after.batch == before.batch
    &&& before.commands.len() <= after.commands.len()
    &&& forall|k: int| 0 <= k < before.commands.len() ==> after.commands[k] == before.commands[k]
}

/// Byte `k` of `word`, counted from the least significant.
pub open spec fn byte_of(word: u32, k: int) -> u8 {
    if k == 0 {
        (word % 256) as u8
    } else if k == 1 {
        (word / 256 % 256) as u8
    } else if k == 2 {
        (word / 65536 % 256) as u8
    } else {
        (word / 16777216) as u8
    }
}

/// The bytes of `words`, word after word, each with its least significant
/// byte first.
pub open spec fn little_endian(words: Seq<u32>) -> Seq<u8> {
    Seq::new(4 * words.len(), |i: int| byte_of(words[i / 4], i % 4))
}

/// The bytes of `words`, word after word, each with its most significant
/// byte first.
pub open spec fn big_endian(words: Seq<u32>) -> Seq<u8> {
    Seq::new(4 * words.len(), |i: int| byte_of(words[i / 4], 3 - i % 4))
}

/// `bytemuck::cast_slice` from 32-bit words to bytes, copied into a vector:
/// the words as they lie in memory, each in the byte order of the machine,
/// which is one of two.
#[verifier::external_body]
fn native_bytes(words: &Vec<u32>) -> (bytes: Vec<u8>)
    ensures
        bytes@ == little_endian(words@) || bytes@ == big_endian(words@),
{
    bytemuck::cast_slice(words.as_slice()).to_vec()
}

/// The contents of a buffer as the device takes them: four bytes for each
/// word, in the byte order of the machine.
pub fn buffer_bytes(contents: &Vec<u32>) -> (bytes: Vec<u8>)
    ensures
        bytes@.len() == 4 * contents@.len(),
        bytes@ == little_endian(contents@) || bytes@ == big_endian(contents@),
{
    native_bytes(contents)
}

/// The ledger of commands for the device.
pub struct Gpu {
    batch: u64,
    commands: Vec<Command>,
}

impl View for Gpu {
    type V = GpuView;

    closed spec fn view(&self) -> GpuView {
        GpuView {
            batch: self.batch,
            commands: Seq::new(self.commands@.len(), |i: int| self.commands@[i]@),
        }
    }
}

impl Gpu {
    /// A ledger with nothing in it, filling batch 0.
    pub fn new() -> (gpu: Gpu)
        ensures
            gpu@ == (GpuView { batch: 0, commands: Seq::empty() }),
    {
        let gpu = Gpu { batch: 0, commands: Vec::new() };
        assert(gpu@.commands =~= Seq::empty());
        gpu
    }

    /// The commands of a batch can be counted.
    pub proof fn lemma_countable(&self)
        ensures
            self@.commands.len() <= usize::MAX,
    {
        vstd::std_specs::vec::axiom_spec_len(&self.commands);
    }

    /// The number of the batch being filled.
    pub fn batch(&self) -> (batch: u64)
        ensures
            batch == self@.batch,
    {
        self.batch
    }

    /// How many commands the batch holds.
    pub fn len(&self) -> (len: usize)
        ensures
            len == self@.commands.len(),
    {
        self.commands.len()
    }

    /// Appends `command` to the batch and names what it creates.
    pub fn issue(&mut self, command: Command) -> (handle: Handle)
        ensures
            final(self)@ == old(self)@.issue(command@),
            handle == old(self)@.next(),
            handle.index == old(self)@.commands.len(),
    {
        let handle = Handle { batch: self.batch, index: self.commands.len() };
        self.commands.push(command);
        assert(self@.commands =~= old(self)@.commands.push(command@));
        handle
    }

    /// Asks for a buffer that holds the words `contents`.
    pub fn create_buffer(&mut self, label: String, usage: BufferUsage, contents: Vec<u32>) -> (buffer:
        Buffer)
        ensures
            final(self)@ == old(self)@.issue(
                CommandView::CreateBuffer { label: label@, usage, contents: contents@ },
            ),
            buffer == (Buffer { handle: old(self)@.next(), len: contents@.len() as usize }),
    {
        let len = contents.len();
        let handle = self.issue(Command::CreateBuffer { label, usage, contents });
        Buffer { handle, len }
    }

    /// Tells the device that `handle` is no longer in use.
    pub fn release(&mut self, handle: Handle)
        ensures
            final(self)@ == old(self)@.issue(CommandView::Release { handle }),
    {
        let _ = self.issue(Command::Release { handle });
    }

    /// The command at `index` of the batch.
    pub fn command(&self, index: usize) -> (command: &Command)
        requires
            index < self@.commands.len(),
        ensures
            command@ == self@.commands[index as int],
    {
        &self.commands[index]
    }

    /// Hands out the batch and starts the next one. Gives `None`, and changes
    /// nothing, when the batch numbers are used up.
    pub fn take(&mut self) -> (batch: Option<Vec<Command>>)
        ensures
            old(self)@.batch == u64::MAX ==> batch.is_none() && final(self)@ == old(self)@,
            old(self)@.batch < u64::MAX ==> {
                &&& batch.is_some()
                &&& final(self)@ == (GpuView {
                    batch: (old(self)@.batch + 1) as u64,
                    commands: Seq::empty(),
                })
                &&& batch.unwrap()@.len() == old(self)@.commands.len()
                &&& forall|i: int|
                    0 <= i < old(self)@.commands.len() ==> (#[trigger] batch.unwrap()@[i])@
                        == old(self)@.commands[i]
            },
    {
        if self.batch == u64::MAX {
            return None;
        }
        let mut taken: Vec<Command> = Vec::new();
        std::mem::swap(&mut self.commands, &mut taken);
        self.batch = self.batch + 1;
        assert(self@.commands =~= Seq::empty());
        Some(taken)
    }
}

} // verus!
