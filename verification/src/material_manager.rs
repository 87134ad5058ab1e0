//! The registry of what all materials share: the two bind group layouts,
//! the shaders and the textures that were loaded.
use crate::assets::{
    dimensions, extent, failed, float_samples, has_nan, image_of, sound,
    load_image, read_gave, rgba, texels, text_of, AssetErrorKind, AssetLoadError,
};
use crate::components::rendering::{vertex_layout, Vertex};
use crate::gpu::{
    clamped_sampler, extends, opaque_triangles, sampled_texture, Command, CommandView, Gpu, GpuView,
    Handle, LayoutKind, Origin, PipelineState, SamplerState, TextureState,
};
use vstd::prelude::*;
use vstd::string::StringExecFns;
use vstd::utf8::{decode_utf8, valid_utf8};

verus! {

/// A shader on the device: its module, the layout of its pipeline and the
/// pipeline.
#[derive(Clone, Copy, PartialEq, Eq, Structural, Debug)]
pub struct Shader {
    pub shader: Handle,
    pub layout: Handle,
    pub pipeline: Handle,
}

/// A texture on the device, a view of all of it and a sampler for it.
#[derive(Clone, Copy, PartialEq, Eq, Structural, Debug)]
pub struct Texture {
    pub texture: Handle,
    pub view: Handle,
    pub sampler: Handle,
}

/// The layouts that every material and every camera binding is made with,
/// and the textures loaded so far, each under its path.
pub struct MaterialManager {
    texture_bind_group_layout: Handle,
    camera_bind_group_layout: Handle,
    textures: Vec<(String, Texture)>,
}

/// A [`MaterialManager`] as a mathematical value.
pub struct MaterialManagerView {
    pub texture_bind_group_layout: Handle,
    pub camera_bind_group_layout: Handle,
    pub textures: Seq<(Seq<char>, Texture)>,
}

/// `Some(x)` for an `x` that is not zero, `None` for zero.
pub open spec fn non_zero(x: u32) -> Option<u32> {
    if x == 0 {
        None
    } else {
        Some(x)
    }
}

/// The handle that a ledger gives `ahead` commands after its next one.
pub open spec fn handle_ahead(gpu: GpuView, ahead: int) -> Handle {
    Handle { batch: gpu.batch, index: (gpu.commands.len() + ahead) as usize }
}

/// The commands that put the pixels `data` of a `width` by `height` image on
/// the device as a texture labelled `label`, when the ledger stands at
/// `gpu`: the texture is created as [`sampled_texture`] says and written
/// from its first texel on, row by row of four bytes a pixel, then a view
/// of it and a sampler as [`clamped_sampler`] says are created.
pub open spec fn texture_commands(
    gpu: GpuView,
    label: Seq<char>,
    width: u32,
    height: u32,
    data: Seq<u8>,
) -> Seq<CommandView> {
    seq![
        CommandView::CreateTexture { label, width, height, state: sampled_texture() },
        CommandView::WriteTexture {
            texture: gpu.next(),
            mip_level: 0,
            origin: Origin { x: 0, y: 0, z: 0 },
            offset: 0,
            width,
            height,
            bytes_per_row: non_zero((4 * width) as u32),
            rows_per_image: non_zero(height),
            data,
        },
        CommandView::CreateTextureView { texture: gpu.next() },
        CommandView::CreateSampler { state: clamped_sampler() },
    ]
}

/// The bytes of a row of `img`, four for each pixel, can be counted in 32
/// bits, and the bytes of all its rows can be counted.
pub open spec fn fits(img: image::DynamicImage) -> bool {
    &&& 4 * extent(img).0 <= u32::MAX
    &&& 4 * extent(img).0 * extent(img).1 <= usize::MAX
}

/// `added` is what putting `img` on the device under the name `name` comes
/// to, when the ledger goes from `before` to `after`. An image with
/// floating-point sample that is no number is not supported, and one that
/// does not fit is too large: for both nothing is asked of the device.
/// Every other image is uploaded as [`texture_commands`] say, four bytes
/// for each of its pixels.
pub open spec fn texture_added(
    img: image::DynamicImage,
    name: Seq<char>,
    before: GpuView,
    after: GpuView,
    added: Result<Texture, AssetLoadError>,
) -> bool {
    if !sound(img) {
        failed(added, name, AssetErrorKind::Unsupported) && after == before
    } else if !fits(img) {
        failed(added, name, AssetErrorKind::TooLarge) && after == before
    } else {
        &&& added == Ok::<Texture, AssetLoadError>(texture_made(before))
        &&& uploaded(before, after, name + " Texture"@, img)
        &&& texels(img).len() == 4 * extent(img).0 * extent(img).1
    }
}

/// `added` is what loading the texture at `path` comes to when the reader
/// gave `found` and the ledger goes from `before` to `after`: the error
/// that loading the image comes to, with nothing asked of the device, or
/// what putting the image on the device comes to.
pub open spec fn texture_loaded(
    found: Option<Vec<u8>>,
    path: Seq<char>,
    before: GpuView,
    after: GpuView,
    added: Result<Texture, AssetLoadError>,
) -> bool {
    match found {
        None => failed(added, path, AssetErrorKind::Missing) && after == before,
        Some(bytes) => match image_of(bytes@, path) {
            Some(img) => texture_added(img, path, before, after, added),
            None => failed(added, path, AssetErrorKind::Malformed) && after == before,
        },
    }
}

/// The ledger went from `before` to `after` by putting `img` on the device
/// as a texture labelled `label`.
pub open spec fn uploaded(
    before: GpuView,
    after: GpuView,
    label: Seq<char>,
    img: image::DynamicImage,
) -> bool {
    after == before.issue_all(
        texture_commands(before, label, extent(img).0, extent(img).1, texels(img)),
    )
}

/// The commands that register the shader `name` with the text `source`,
/// when the ledger stands at `gpu`: its module, a pipeline layout with the
/// bind group layouts `layouts`, and a pipeline that enters the module at
/// `vs_main` and `fs_main`, reads vertices as [`Vertex::descriptor`] lays
/// them out, and is otherwise as [`opaque_triangles`] says.
pub open spec fn shader_commands(
    gpu: GpuView,
    name: Seq<char>,
    source: Seq<char>,
    layouts: Seq<Handle>,
) -> Seq<CommandView> {
    seq![
        CommandView::CreateShaderModule { label: name, source },
        CommandView::CreatePipelineLayout { label: name + " Layout"@, bind_group_layouts: layouts },
        CommandView::CreateRenderPipeline {
            label: name + " Pipeline"@,
            layout: handle_ahead(gpu, 1),
            module: gpu.next(),
            vertex_entry: "vs_main"@,
            fragment_entry: "fs_main"@,
            buffers: vertex_layout(),
            state: opaque_triangles(),
        },
    ]
}

/// The ledger went from `before` to `after` by registering the shader
/// `name` with the text `source`, for pipelines with the bind group layouts
/// `layouts`.
pub open spec fn shader_registered(
    before: GpuView,
    after: GpuView,
    name: Seq<char>,
    source: Seq<char>,
    layouts: Seq<Handle>,
) -> bool {
    after == before.issue_all(shader_commands(before, name, source, layouts))
}

/// `error` is the error that loading the texture at `path` comes to when
/// the reader gave `found`: of kind `Missing` where it gave nothing, of
/// kind `Malformed` where the bytes hold no image, of kind `Unsupported`
/// for an image with a sample that is no number, and of kind `TooLarge` for
/// one that does not fit.
pub open spec fn texture_fails(found: Option<Vec<u8>>, path: Seq<char>, error: AssetLoadError) -> bool {
    &&& error.path@ == path
    &&& error.kind == match found {
        None => AssetErrorKind::Missing,
        Some(bytes) => match image_of(bytes@, path) {
            None => AssetErrorKind::Malformed,
            Some(img) => if !sound(img) {
                AssetErrorKind::Unsupported
            } else {
                AssetErrorKind::TooLarge
            },
        },
    }
    &&& found matches Some(bytes) ==> (image_of(bytes@, path) matches Some(img) ==> !sound(img)
        || !fits(img))
}

/// The reader gave something for the file that `error` names that makes
/// `error` the error of loading the texture there.
pub open spec fn failed_loading<F: Fn(&String) -> Option<Vec<u8>>>(
    read: &F,
    error: AssetLoadError,
) -> bool {
    exists|path: &String, found: Option<Vec<u8>>|
        path@ == error.path@ && #[trigger] read_gave(read, path, found) && texture_fails(
            found,
            error.path@,
            error,
        )
}

/// The ledger `ledger` without its commands from number `at` on.
pub open spec fn ledger_before(ledger: GpuView, at: int) -> GpuView {
    GpuView { batch: ledger.batch, commands: ledger.commands.take(at) }
}

/// The texture of `entry` is on record in `ledger` as the upload of `img`
/// under the path of the entry: the four commands from the one that made
/// the texture on are those of [`texture_commands`], and the texture, its
/// view and its sampler are what they make.
pub open spec fn entry_uploaded(
    entry: (Seq<char>, Texture),
    img: image::DynamicImage,
    ledger: GpuView,
) -> bool {
    let at = entry.1.texture.index as int;
    &&& entry.1.texture.batch == ledger.batch
    &&& at + 4 <= ledger.commands.len()
    &&& entry.1 == texture_made(ledger_before(ledger, at))
    &&& ledger.commands.subrange(at, at + 4) == texture_commands(
        ledger_before(ledger, at),
        entry.0 + " Texture"@,
        extent(img).0,
        extent(img).1,
        texels(img),
    )
}

/// The texture of `entry` was loaded through `read`: `read` gave bytes for
/// the path of the entry, the bytes hold an image that can be made a
/// texture, and the upload of that image is on record in `ledger`.
pub open spec fn entry_loaded<F: Fn(&String) -> Option<Vec<u8>>>(
    read: &F,
    entry: (Seq<char>, Texture),
    ledger: GpuView,
) -> bool {
    exists|path: &String, given: Option<Vec<u8>>|
        {
            &&& path@ == entry.0
            &&& #[trigger] read_gave(read, path, given)
            &&& given.is_some()
            &&& image_of(given.unwrap()@, entry.0).is_some()
            &&& {
                let img = image_of(given.unwrap()@, entry.0).unwrap();
                sound(img) && fits(img) && entry_uploaded(entry, img, ledger)
            }
        }
}

/// Every texture that `later` holds beyond those of `before` was loaded
/// through `read`, and its upload is on record in `ledger`.
pub open spec fn grown_by_loading<F: Fn(&String) -> Option<Vec<u8>>>(
    read: &F,
    before: MaterialManagerView,
    later: MaterialManagerView,
    ledger: GpuView,
) -> bool {
    forall|k: int|
        before.textures.len() <= k < later.textures.len() ==> entry_loaded(
            read,
            #[trigger] later.textures[k],
            ledger,
        )
}

/// An upload that is on record in a ledger is on record in every ledger
/// that extends it.
pub proof fn lemma_entry_uploaded_stays(
    entry: (Seq<char>, Texture),
    img: image::DynamicImage,
    ledger: GpuView,
    later: GpuView,
)
    requires
        entry_uploaded(entry, img, ledger),
        extends(ledger, later),
    ensures
        entry_uploaded(entry, img, later),
{
    let at = entry.1.texture.index as int;
    assert(later.commands.take(at) =~= ledger.commands.take(at));
    assert(later.commands.subrange(at, at + 4) =~= ledger.commands.subrange(at, at + 4));
}

/// What was loaded through `read` stays so when the ledger grows.
pub proof fn lemma_grown_by_loading_stays<F: Fn(&String) -> Option<Vec<u8>>>(
    read: &F,
    before: MaterialManagerView,
    later: MaterialManagerView,
    ledger: GpuView,
    after: GpuView,
)
    requires
        grown_by_loading(read, before, later, ledger),
        extends(ledger, after),
    ensures
        grown_by_loading(read, before, later, after),
{
    assert forall|k: int| before.textures.len() <= k < later.textures.len() implies entry_loaded(
        read,
        #[trigger] later.textures[k],
        after,
    ) by {
        let entry = later.textures[k];
        assert(entry_loaded(read, entry, ledger));
        let (path, given) = choose|path: &String, given: Option<Vec<u8>>|
            {
                &&& path@ == entry.0
                &&& #[trigger] read_gave(read, path, given)
                &&& given.is_some()
                &&& image_of(given.unwrap()@, entry.0).is_some()
                &&& {
                    let img = image_of(given.unwrap()@, entry.0).unwrap();
                    sound(img) && fits(img) && entry_uploaded(entry, img, ledger)
                }
            };
        lemma_entry_uploaded_stays(
            entry,
            image_of(given.unwrap()@, entry.0).unwrap(),
            ledger,
            after,
        );
    }
}

/// What grew by loading, and then grew by loading again, grew by loading.
pub proof fn lemma_grown_by_loading_chains<F: Fn(&String) -> Option<Vec<u8>>>(
    read: &F,
    first: MaterialManagerView,
    middle: MaterialManagerView,
    last: MaterialManagerView,
    ledger: GpuView,
    after: GpuView,
)
    requires
        grown_by_loading(read, first, middle, ledger),
        grown_by_loading(read, middle, last, after),
        first.grows_to(middle),
        middle.grows_to(last),
        extends(ledger, after),
    ensures
        grown_by_loading(read, first, last, after),
{
    lemma_grown_by_loading_stays(read, first, middle, ledger, after);
    assert forall|k: int| first.textures.len() <= k < last.textures.len() implies entry_loaded(
        read,
        #[trigger] last.textures[k],
        after,
    ) by {
        if k < middle.textures.len() {
            assert(last.textures[k] == middle.textures[k]);
            assert(entry_loaded(read, middle.textures[k], after));
        }
    }
}

/// A texture that was just uploaded is on record in the ledger that the
/// upload left.
pub proof fn lemma_upload_on_record(
    path: Seq<char>,
    img: image::DynamicImage,
    before: GpuView,
    after: GpuView,
)
    requires
        uploaded(before, after, path + " Texture"@, img),
        after.commands.len() <= usize::MAX,
    ensures
        entry_uploaded((path, texture_made(before)), img, after),
{
    let at = before.commands.len() as int;
    assert(after.commands.take(at) =~= before.commands);
    assert(after.commands.subrange(at, at + 4) =~= texture_commands(
        before,
        path + " Texture"@,
        extent(img).0,
        extent(img).1,
        texels(img),
    ));
}

/// `added` is what registering the shader `name` comes to when the reader
/// gave `found` for its file, `name` with `.wgsl` behind it, and the ledger
/// goes from `before` to `after`: the error of kind `Missing` where the
/// reader gave nothing and the error of kind `Malformed` where it gave
/// bytes that are not UTF-8, both with nothing asked of the device; and
/// else the shader, registered with the text that the bytes encode.
pub open spec fn shader_added(
    found: Option<Vec<u8>>,
    name: Seq<char>,
    layouts: Seq<Handle>,
    before: GpuView,
    after: GpuView,
    added: Result<Shader, AssetLoadError>,
) -> bool {
    match found {
        None => failed(added, name + ".wgsl"@, AssetErrorKind::Missing) && after == before,
        Some(bytes) => if valid_utf8(bytes@) {
            &&& added == Ok::<Shader, AssetLoadError>(shader_made(before))
            &&& shader_registered(before, after, name, decode_utf8(bytes@), layouts)
        } else {
            failed(added, name + ".wgsl"@, AssetErrorKind::Malformed) && after == before
        },
    }
}

/// The shader that [`shader_commands`] make, when the ledger stands at
/// `gpu`.
pub open spec fn shader_made(gpu: GpuView) -> Shader {
    Shader { shader: gpu.next(), layout: handle_ahead(gpu, 1), pipeline: handle_ahead(gpu, 2) }
}

/// The texture that [`texture_commands`] make, when the ledger stands at
/// `gpu`.
pub open spec fn texture_made(gpu: GpuView) -> Texture {
    Texture { texture: gpu.next(), view: handle_ahead(gpu, 2), sampler: handle_ahead(gpu, 3) }
}

/// Registers a shader with the device: see [`shader_commands`].
pub fn register_shader(name: &String, source: String, layouts: Vec<Handle>, gpu: &mut Gpu) -> (shader:
    Shader)
    ensures
        final(gpu)@ == old(gpu)@.issue_all(shader_commands(old(gpu)@, name@, source@, layouts@)),
        shader == shader_made(old(gpu)@),
{
    let buffers = Vertex::descriptor();
    let module = gpu.issue(Command::CreateShaderModule { label: name.clone(), source });
    let layout = gpu.issue(
        Command::CreatePipelineLayout {
            label: name.clone().concat(" Layout"),
            bind_group_layouts: layouts,
        },
    );
    let pipeline = gpu.issue(
        Command::CreateRenderPipeline {
            label: name.clone().concat(" Pipeline"),
            layout,
            module,
            vertex_entry: "vs_main".to_owned(),
            fragment_entry: "fs_main".to_owned(),
            buffers,
            state: PipelineState::opaque(),
        },
    );
    assert(gpu@.commands =~= old(gpu)@.commands + shader_commands(
        old(gpu)@,
        name@,
        source@,
        layouts@,
    ));
    Shader { shader: module, layout, pipeline }
}

impl View for MaterialManager {
    type V = MaterialManagerView;

    closed spec fn view(&self) -> MaterialManagerView {
        MaterialManagerView {
            texture_bind_group_layout: self.texture_bind_group_layout,
            camera_bind_group_layout: self.camera_bind_group_layout,
            textures: Seq::new(
                self.textures@.len(),
                |i: int| (self.textures@[i].0@, self.textures@[i].1),
            ),
        }
    }
}

/// The texture that `textures[0..n]` holds under `path`: the first, if there
/// are several.
pub open spec fn cached(textures: Seq<(Seq<char>, Texture)>, path: Seq<char>, n: int) -> Option<
    Texture,
>
    decreases n,
{
    if n <= 0 {
        None
    } else {
        match cached(textures, path, n - 1) {
            Some(texture) => Some(texture),
            None => if textures[n - 1].0 == path {
                Some(textures[n - 1].1)
            } else {
                None
            },
        }
    }
}

impl MaterialManagerView {
    /// The texture that was loaded from `path`, if one was.
    pub open spec fn texture(self, path: Seq<char>) -> Option<Texture> {
        cached(self.textures, path, self.textures.len() as int)
    }

    /// `later` has the layouts of this registry and every texture of it, at
    /// the same place.
    pub open spec fn grows_to(self, later: MaterialManagerView) -> bool {
        &&& later.texture_bind_group_layout == self.texture_bind_group_layout
        &&& later.camera_bind_group_layout == self.camera_bind_group_layout
        &&& self.textures.len() <= later.textures.len()
        &&& forall|i: int| 0 <= i < self.textures.len() ==> later.textures[i] == self.textures[i]
    }
}

/// A texture that was found under a path is found under it in every
/// registry that the registry grows to.
pub proof fn lemma_texture_stays(
    before: MaterialManagerView,
    later: MaterialManagerView,
    path: Seq<char>,
)
    requires
        before.grows_to(later),
        before.texture(path).is_some(),
    ensures
        later.texture(path) == before.texture(path),
{
    lemma_cached_stays(before.textures, later.textures, path, before.textures.len() as int);
    lemma_cached_more(later.textures, path, before.textures.len() as int, later.textures.len() as int);
}

/// Two lists that agree on their first `n` entries hold the same texture
/// under `path` among these.
pub proof fn lemma_cached_stays(
    a: Seq<(Seq<char>, Texture)>,
    b: Seq<(Seq<char>, Texture)>,
    path: Seq<char>,
    n: int,
)
    requires
        0 <= n <= a.len(),
        n <= b.len(),
        forall|i: int| 0 <= i < n ==> a[i] == b[i],
    ensures
        cached(a, path, n) == cached(b, path, n),
    decreases n,
{
    if n > 0 {
        lemma_cached_stays(a, b, path, n - 1);
    }
}

/// A texture found among the first `n` entries is the one found among the
/// first `m`, for `m` not less than `n`.
pub proof fn lemma_cached_more(textures: Seq<(Seq<char>, Texture)>, path: Seq<char>, n: int, m: int)
    requires
        0 <= n <= m,
        cached(textures, path, n).is_some(),
    ensures
        cached(textures, path, m) == cached(textures, path, n),
    decreases m - n,
{
    if n < m {
        lemma_cached_more(textures, path, n, m - 1);
    }
}

impl MaterialManager {
    /// Asks the device for the two layouts, the one for textures first, and
    /// starts with no texture loaded.
    pub fn new(gpu: &mut Gpu) -> (manager: MaterialManager)
        ensures
            final(gpu)@ == old(gpu)@.issue(
                CommandView::CreateBindGroupLayout { kind: LayoutKind::Texture },
            ).issue(CommandView::CreateBindGroupLayout { kind: LayoutKind::Camera }),
            manager@ == (MaterialManagerView {
                texture_bind_group_layout: old(gpu)@.next(),
                camera_bind_group_layout: handle_ahead(old(gpu)@, 1),
                textures: Seq::empty(),
            }),
    {
        let texture_bind_group_layout = gpu.issue(
            Command::CreateBindGroupLayout { kind: LayoutKind::Texture },
        );
        let camera_bind_group_layout = gpu.issue(
            Command::CreateBindGroupLayout { kind: LayoutKind::Camera },
        );
        let manager = MaterialManager {
            texture_bind_group_layout,
            camera_bind_group_layout,
            textures: Vec::new(),
        };
        assert(manager@.textures =~= Seq::empty());
        manager
    }

    /// The layout of the bind group of a material's texture.
    pub fn get_texture_bind_group_layout(&self) -> (layout: &Handle)
        ensures
            *layout == self@.texture_bind_group_layout,
    {
        &self.texture_bind_group_layout
    }

    /// The layout of the bind group of a camera's matrix.
    pub fn get_camera_bind_group_layout(&self) -> (layout: &Handle)
        ensures
            *layout == self@.camera_bind_group_layout,
    {
        &self.camera_bind_group_layout
    }

    /// Registers the shader `name`, whose text `read` finds in the file
    /// `name` with `.wgsl` behind it, for pipelines that bind a texture at
    /// slot 0 and a camera at slot 1: see [`shader_added`].
    ///
    /// It fails, with nothing asked of the device, where `read` finds no
    /// such file (`Missing`) or the file is not UTF-8 text (`Malformed`),
    /// and succeeds on every other file.
    pub fn add_shader<F: Fn(&String) -> Option<Vec<u8>>>(
        &self,
        name: &String,
        read: &F,
        gpu: &mut Gpu,
    ) -> (added: Result<Shader, AssetLoadError>)
        requires
            forall|path: &String| read.requires((path,)),
        ensures
            exists|file: &String, found: Option<Vec<u8>>|
                {
                    &&& file@ == name@ + ".wgsl"@
                    &&& #[trigger] read_gave(read, file, found)
                    &&& shader_added(
                        found,
                        name@,
                        seq![self@.texture_bind_group_layout, self@.camera_bind_group_layout],
                        old(gpu)@,
                        final(gpu)@,
                        added,
                    )
                },
    {
        let file = name.clone().concat(".wgsl");
        let found = read(&file);
        assert(read_gave(read, &file, found));
        let bytes = match found {
            Some(bytes) => bytes,
            None => {
                return Err(AssetLoadError { path: file, kind: AssetErrorKind::Missing });
            },
        };
        let source = match text_of(bytes) {
            Some(source) => source,
            None => {
                return Err(AssetLoadError { path: file, kind: AssetErrorKind::Malformed });
            },
        };
        let mut layouts: Vec<Handle> = Vec::new();
        layouts.push(self.texture_bind_group_layout);
        layouts.push(self.camera_bind_group_layout);
        assert(layouts@ =~= seq![self@.texture_bind_group_layout, self@.camera_bind_group_layout]);
        let shader = register_shader(name, source, layouts, gpu);
        Ok(shader)
    }

    /// Puts `img` on the device as a texture labelled `name` with
    /// ` Texture` behind it: see [`texture_added`].
    ///
    /// It fails, with nothing asked of the device, for an image with a
    /// floating-point sample that is no number, and where a row of the
    /// image has more bytes than a 32-bit number can count, or the image
    /// more than the machine can.
    pub fn add_texture(&self, img: &image::DynamicImage, name: &String, gpu: &mut Gpu) -> (added:
        Result<Texture, AssetLoadError>)
        ensures
            texture_added(*img, name@, old(gpu)@, final(gpu)@, added),
    {
        if let Some(bits) = float_samples(img) {
            if has_nan(&bits) {
                return Err(
                    AssetLoadError { path: name.clone(), kind: AssetErrorKind::Unsupported },
                );
            }
        }
        let (width, height) = dimensions(img);
        if width > u32::MAX / 4 {
            return Err(AssetLoadError { path: name.clone(), kind: AssetErrorKind::TooLarge });
        }
        let row: u32 = 4 * width;
        let wide_row: u64 = row as u64;
        let wide_height: u64 = height as u64;
        assert(wide_row * wide_height <= u64::MAX) by (nonlinear_arith)
            requires
                wide_row <= u32::MAX,
                wide_height <= u32::MAX,
        ;
        assert(4 * extent(*img).0 * extent(*img).1 == wide_row * wide_height) by (nonlinear_arith)
            requires
                wide_row == 4 * extent(*img).0,
                wide_height == extent(*img).1,
        ;
        if wide_row * wide_height > usize::MAX as u64 {
            return Err(AssetLoadError { path: name.clone(), kind: AssetErrorKind::TooLarge });
        }
        let data = rgba(img);
        let label = name.clone().concat(" Texture");
        let texture = gpu.issue(
            Command::CreateTexture { label, width, height, state: TextureState::sampled() },
        );
        let _ = gpu.issue(
            Command::WriteTexture {
                texture,
                mip_level: 0,
                origin: Origin { x: 0, y: 0, z: 0 },
                offset: 0,
                width,
                height,
                bytes_per_row: if row == 0 {
                    None
                } else {
                    Some(row)
                },
                rows_per_image: if height == 0 {
                    None
                } else {
                    Some(height)
                },
                data,
            },
        );
        let view = gpu.issue(Command::CreateTextureView { texture });
        let sampler = gpu.issue(Command::CreateSampler { state: SamplerState::clamped() });
        assert(gpu@.commands =~= old(gpu)@.commands + texture_commands(
            old(gpu)@,
            name@ + " Texture"@,
            width,
            height,
            texels(*img),
        ));
        Ok(Texture { texture, view, sampler })
    }

    /// The texture of the image at `path`: the one that was loaded from
    /// there before, if one was, and else the one that is loaded from there
    /// now, as [`MaterialManager::add_texture_from_path`] does, and kept for
    /// the next time.
    ///
    /// A texture that is there is handed out with nothing read and nothing
    /// asked of the device. On an error nothing has changed.
    pub fn get_texture<F: Fn(&String) -> Option<Vec<u8>>>(
        &mut self,
        path: &String,
        read: &F,
        gpu: &mut Gpu,
    ) -> (found: Result<Texture, AssetLoadError>)
        requires
            forall|path: &String| read.requires((path,)),
        ensures
            match old(self)@.texture(path@) {
                Some(texture) => {
                    &&& found == Ok::<Texture, AssetLoadError>(texture)
                    &&& final(self)@ == old(self)@
                    &&& final(gpu)@ == old(gpu)@
                },
                None => {
                    &&& exists|given: Option<Vec<u8>>|
                        #[trigger] read_gave(read, path, given) && texture_loaded(
                            given,
                            path@,
                            old(gpu)@,
                            final(gpu)@,
                            found,
                        )
                    &&& final(self)@ == match found {
                        Ok(texture) => MaterialManagerView {
                            textures: old(self)@.textures.push((path@, texture)),
                            ..old(self)@
                        },
                        Err(_) => old(self)@,
                    }
                },
            },
            old(self)@.grows_to(final(self)@),
            grown_by_loading(read, old(self)@, final(self)@, final(gpu)@),
            extends(old(gpu)@, final(gpu)@),
            found matches Err(error) ==> {
                &&& error.path@ == path@
                &&& failed_loading(read, error)
                &&& final(self)@ == old(self)@
                &&& final(gpu)@ == old(gpu)@
            },
            found matches Ok(texture) ==> final(self)@.texture(path@) == Some(texture),
    {
        let mut i: usize = 0;
        while i < self.textures.len()
            invariant
                i <= self.textures@.len(),
                *self == *old(self),
                cached(self@.textures, path@, i as int).is_none(),
            decreases self.textures@.len() - i,
        {
            if self.textures[i].0 == *path {
                let texture = self.textures[i].1;
                proof {
                    lemma_cached_more(
                        self@.textures,
                        path@,
                        i + 1,
                        self@.textures.len() as int,
                    );
                }
                return Ok(texture);
            }
            i = i + 1;
        }
        let added = self.add_texture_from_path(path, read, gpu);
        let ghost given = choose|given: Option<Vec<u8>>|
            #[trigger] read_gave(read, path, given) && texture_loaded(
                given,
                path@,
                old(gpu)@,
                gpu@,
                added,
            );
        let texture = match added {
            Ok(texture) => texture,
            Err(error) => {
                assert(texture_fails(given, error.path@, error));
                return Err(error);
            },
        };
        self.textures.push((path.clone(), texture));
        assert(self@.textures =~= old(self)@.textures.push((path@, texture)));
        proof {
            gpu.lemma_countable();
            let img = image_of(given.unwrap()@, path@).unwrap();
            lemma_upload_on_record(path@, img, old(gpu)@, gpu@);
            assert(entry_loaded(read, (path@, texture), gpu@));
        }
        proof {
            lemma_cached_stays(
                old(self)@.textures,
                self@.textures,
                path@,
                old(self)@.textures.len() as int,
            );
        }
        Ok(texture)
    }

    /// Reads the image at `path`, decodes it and puts it on the device as
    /// [`MaterialManager::add_texture`] does: see [`texture_loaded`].
    ///
    /// Every error names `path`, and on an error nothing is asked of the
    /// device.
    pub fn add_texture_from_path<F: Fn(&String) -> Option<Vec<u8>>>(
        &self,
        path: &String,
        read: &F,
        gpu: &mut Gpu,
    ) -> (added: Result<Texture, AssetLoadError>)
        requires
            forall|path: &String| read.requires((path,)),
        ensures
            exists|found: Option<Vec<u8>>|
                #[trigger] read_gave(read, path, found) && texture_loaded(
                    found,
                    path@,
                    old(gpu)@,
                    final(gpu)@,
                    added,
                ),
            added matches Err(error) ==> error.path@ == path@ && final(gpu)@ == old(gpu)@,
            extends(old(gpu)@, final(gpu)@),
    {
        let img = match load_image(path, read) {
            Ok(img) => img,
            Err(error) => {
                return Err(error);
            },
        };
        self.add_texture(&img, path, gpu)
    }
}

} // verus!
