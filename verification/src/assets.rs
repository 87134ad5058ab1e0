//! Assets: model files, material libraries and images, read through a
//! function that the caller supplies and decoded here.
use crate::components::rendering::{DiffuseMaterial, Mesh, Renderer, Vertex, ZERO};
use std::collections::HashMap;
use vstd::prelude::*;

verus! {

/// What went wrong with an asset.
#[derive(Clone, Copy, PartialEq, Eq, Structural, Debug)]
pub enum AssetErrorKind {
    /// The file could not be read.
    Missing,
    /// The file was read but is not what it should be.
    Malformed,
    /// A material library that the file names could not be read or is not
    /// what it should be.
    Library,
    /// A mesh has a vertex without texture coordinates.
    Incomplete,
    /// A mesh names a material that the file does not have.
    Material,
    /// A mesh has more indices than a draw call can count, or an image has
    /// more bytes in a row or in all than can be counted.
    TooLarge,
    /// An image has a floating-point sample that is no number.
    Unsupported,
}

/// An asset that could not be loaded, and why.
#[derive(Clone, PartialEq, Eq, Debug)]
pub struct AssetLoadError {
    pub path: String,
    pub kind: AssetErrorKind,
}

/// `tobj::Model`: one mesh of a parsed model file, with its name. Nothing
/// inside it is known here.
#[verifier::external_type_specification]
#[verifier::external_body]
pub struct ExObjModel(tobj::Model);

/// `tobj::Material`: one material of a parsed material library. Nothing
/// inside it is known here.
#[verifier::external_type_specification]
#[verifier::external_body]
pub struct ExObjMaterial(tobj::Material);

/// `tobj::LoadError`: why `tobj` could not parse. Nothing of it is known
/// here.
#[verifier::external_type_specification]
#[verifier::external_body]
pub struct ExObjError(tobj::LoadError);

/// `image::DynamicImage`: a decoded image. Of what it holds only
/// [`texels`] and [`extent`] speak.
#[verifier::external_type_specification]
#[verifier::external_body]
pub struct ExImage(image::DynamicImage);

/// `image::ImageFormat`: one of the file formats of images. Nothing of it
/// is known here.
#[verifier::external_type_specification]
#[verifier::external_body]
pub struct ExImageFormat(image::ImageFormat);

/// `image::ImageError`: why `image` could not decode. Nothing of it is
/// known here.
#[verifier::external_type_specification]
#[verifier::external_body]
pub struct ExImageError(image::ImageError);

/// The pixels of an image as 8-bit red, green, blue and alpha, row after
/// row from the top, each row from the left.
pub uninterp spec fn texels(image: image::DynamicImage) -> Seq<u8>;

/// The width and the height of an image, in pixels.
pub uninterp spec fn extent(image: image::DynamicImage) -> (u32, u32);

/// Whether an image holds its channels as floating-point numbers.
pub uninterp spec fn float_channels(image: image::DynamicImage) -> bool;

/// The format that the extension of a path stands for, if it stands for
/// one.
pub uninterp spec fn format_named(path: Seq<char>) -> Option<image::ImageFormat>;

/// The image that bytes hold in a format, if they hold one.
pub uninterp spec fn decoded(bytes: Seq<u8>, format: image::ImageFormat) -> Option<
    image::DynamicImage,
>;

/// `image::ImageFormat::from_path`: the format that the extension of `path`
/// stands for, or an error where it stands for none. Which format that is,
/// is not said, only that it depends on the path alone.
#[verifier::external_body]
fn format_of(path: &String) -> (format: Result<image::ImageFormat, image::ImageError>)
    ensures
        format.is_ok() == format_named(path@).is_some(),
        format matches Ok(found) ==> format_named(path@) == Some(found),
{
    image::ImageFormat::from_path(path)
}

/// `image::load_from_memory_with_format`: the image that `source` holds in
/// the format `format`, or an error where it holds none. What it decodes
/// to is not said, only that it depends on the bytes and the format alone.
#[verifier::external_body]
fn decode(source: &Vec<u8>, format: image::ImageFormat) -> (image: Result<
    image::DynamicImage,
    image::ImageError,
>)
    ensures
        image.is_ok() == decoded(source@, format).is_some(),
        image matches Ok(found) ==> decoded(source@, format) == Some(found),
{
    image::load_from_memory_with_format(source, format)
}

/// The samples of an image with floating-point channels, pixel after
/// pixel and channel after channel, each as the bit pattern of its number.
pub uninterp spec fn samples(image: image::DynamicImage) -> Seq<u32>;

/// `image::ImageBuffer::as_raw` on the two variants of
/// `image::DynamicImage` with floating-point channels, `ImageRgb32F` and
/// `ImageRgba32F`: the samples of the image, each as its bit pattern.
/// `None` for every other variant.
#[verifier::external_body]
pub(crate) fn float_samples(image: &image::DynamicImage) -> (bits: Option<Vec<u32>>)
    ensures
        bits.is_some() == float_channels(*image),
        bits matches Some(found) ==> found@ == samples(*image),
{
    match image {
        image::DynamicImage::ImageRgb32F(buffer) => Some(
            buffer.as_raw().iter().map(|x| x.to_bits()).collect(),
        ),
        image::DynamicImage::ImageRgba32F(buffer) => Some(
            buffer.as_raw().iter().map(|x| x.to_bits()).collect(),
        ),
        _ => None,
    }
}

/// The bit pattern is that of no number: all bits of the exponent are set,
/// and some bit of the fraction.
pub open spec fn is_nan(bits: u32) -> bool {
    bits & 0x7F80_0000 == 0x7F80_0000 && bits & 0x007F_FFFF != 0
}

/// One of the first `n` of `bits` is the pattern of no number.
pub open spec fn nan_below(bits: Seq<u32>, n: int) -> bool {
    exists|i: int| 0 <= i < n && is_nan(#[trigger] bits[i])
}

/// Every sample of the image is a number: it has no floating-point
/// channels, or none of its samples has the pattern of no number.
pub open spec fn sound(image: image::DynamicImage) -> bool {
    float_channels(image) ==> !nan_below(samples(image), samples(image).len() as int)
}

/// Whether one of `bits` is the pattern of no number.
pub fn has_nan(bits: &Vec<u32>) -> (found: bool)
    ensures
        found == nan_below(bits@, bits@.len() as int),
{
    let mut i: usize = 0;
    while i < bits.len()
        invariant
            i <= bits@.len(),
            !nan_below(bits@, i as int),
        decreases bits@.len() - i,
    {
        let pattern = bits[i];
        if pattern & 0x7F80_0000 == 0x7F80_0000 && pattern & 0x007F_FFFF != 0 {
            assert(is_nan(bits@[i as int]));
            return true;
        }
        assert(!nan_below(bits@, i + 1)) by {
            if nan_below(bits@, i + 1) {
                let k = choose|k: int| 0 <= k < i + 1 && is_nan(#[trigger] bits@[k]);
                assert(k < i);
            }
        }
        i = i + 1;
    }
    false
}

/// `image::GenericImageView::dimensions` of a `DynamicImage`: its width and
/// height.
#[verifier::external_body]
pub(crate) fn dimensions(image: &image::DynamicImage) -> (size: (u32, u32))
    ensures
        size == extent(*image),
{
    image::GenericImageView::dimensions(image)
}

/// `image::DynamicImage::to_rgba8`, as the bytes it holds: four for each
/// pixel of the image. It is not to be called for an image with more bytes
/// than can be counted, nor for one with a floating-point sample that is
/// no number, on which the conversion fails.
#[verifier::external_body]
pub(crate) fn rgba(image: &image::DynamicImage) -> (bytes: Vec<u8>)
    requires
        4 * extent(*image).0 * extent(*image).1 <= usize::MAX,
        sound(*image),
    ensures
        bytes@ == texels(*image),
        bytes@.len() == 4 * extent(*image).0 * extent(*image).1,
{
    image.to_rgba8().into_raw()
}

/// `String::from_utf8`: the text that `bytes` encode, if they are UTF-8.
#[verifier::external_body]
pub(crate) fn text_of(bytes: Vec<u8>) -> (text: Option<String>)
    ensures
        text.is_some() == vstd::utf8::valid_utf8(bytes@),
        text.is_some() ==> text.unwrap()@ == vstd::utf8::decode_utf8(bytes@),
{
    String::from_utf8(bytes).ok()
}

/// `found` is what `read` gave when it was asked for the file at `path`.
pub open spec fn read_gave<F: Fn(&String) -> Option<Vec<u8>>>(
    read: &F,
    path: &String,
    found: Option<Vec<u8>>,
) -> bool {
    read.ensures((path,), found)
}

/// `loaded` is the error of kind `kind` about the file at `path`.
pub open spec fn failed<T>(
    loaded: Result<T, AssetLoadError>,
    path: Seq<char>,
    kind: AssetErrorKind,
) -> bool {
    loaded matches Err(error) && error.path@ == path && error.kind == kind
}

/// `loaded` is the error of kind `Missing`.
pub open spec fn is_missing<T>(loaded: Result<T, AssetLoadError>) -> bool {
    loaded matches Err(error) && error.kind == AssetErrorKind::Missing
}

/// The image that `bytes` hold in the format that the extension of `path`
/// stands for, if it stands for one and they hold one.
pub open spec fn image_of(bytes: Seq<u8>, path: Seq<char>) -> Option<image::DynamicImage> {
    match format_named(path) {
        Some(format) => decoded(bytes, format),
        None => None,
    }
}

/// `loaded` is what loading the image at `path` comes to when the reader
/// gave `found`: the error of kind `Missing` where it gave nothing, the
/// image that the bytes hold where they hold one, and else the error of
/// kind `Malformed`.
pub open spec fn image_loaded(
    found: Option<Vec<u8>>,
    path: Seq<char>,
    loaded: Result<image::DynamicImage, AssetLoadError>,
) -> bool {
    match found {
        None => failed(loaded, path, AssetErrorKind::Missing),
        Some(bytes) => match image_of(bytes@, path) {
            Some(image) => loaded == Ok::<image::DynamicImage, AssetLoadError>(image),
            None => failed(loaded, path, AssetErrorKind::Malformed),
        },
    }
}

/// Asks `read` for the file at `path` and decodes what it finds, in the
/// format that the extension of `path` stands for.
///
/// Where `read` finds nothing the result is the error of kind `Missing`.
/// Where it finds bytes, the result is the image that they hold in that
/// format, and where they hold none, or the extension stands for no
/// format, the error of kind `Malformed`. Errors name `path`.
pub fn load_image<F: Fn(&String) -> Option<Vec<u8>>>(path: &String, read: &F) -> (loaded: Result<
    image::DynamicImage,
    AssetLoadError,
>)
    requires
        forall|path: &String| read.requires((path,)),
    ensures
        exists|found: Option<Vec<u8>>|
            #[trigger] read_gave(read, path, found) && image_loaded(found, path@, loaded),
{
    let found = read(path);
    assert(read_gave(read, path, found));
    let source = match found {
        Some(source) => source,
        None => {
            return Err(AssetLoadError { path: path.clone(), kind: AssetErrorKind::Missing });
        },
    };
    let format = match format_of(path) {
        Ok(format) => format,
        Err(_) => {
            return Err(AssetLoadError { path: path.clone(), kind: AssetErrorKind::Malformed });
        },
    };
    match decode(&source, format) {
        Ok(image) => Ok(image),
        Err(_) => Err(AssetLoadError { path: path.clone(), kind: AssetErrorKind::Malformed }),
    }
}

/// One mesh of a model file, as it was read: flat lists of numbers.
#[derive(Clone, PartialEq, Eq, Debug)]
pub struct ImportedMesh {
    pub name: String,
    /// Three numbers for each vertex.
    pub positions: Vec<u32>,
    /// Three numbers for each vertex that has a normal.
    pub normals: Vec<u32>,
    /// Two numbers for each vertex that has texture coordinates.
    pub texcoords: Vec<u32>,
    pub indices: Vec<u32>,
    pub material_id: Option<usize>,
}

/// One material of a material library, as it was read.
#[derive(Clone, PartialEq, Eq, Debug)]
pub struct ImportedMaterial {
    pub name: String,
    pub diffuse_texture: String,
}

/// `tobj::load_mtl_buf` on the bytes of a material library. Nothing is
/// claimed of what it makes of them.
#[verifier::external_body]
fn parse_library(source: &Vec<u8>) -> (library: Result<
    (Vec<tobj::Material>, HashMap<String, usize>),
    tobj::LoadError,
>) {
    tobj::load_mtl_buf(&mut source.as_slice())
}

/// The material library `path`, for the parser of model files, which asks
/// for each library that a model file names.
///
/// `read` is asked for the file at `path`, and what it finds is parsed.
/// Where it finds nothing, the library is an error.
fn library<F: Fn(&String) -> Option<Vec<u8>>>(read: &F, path: String) -> (library: Result<
    (Vec<tobj::Material>, HashMap<String, usize>),
    tobj::LoadError,
>)
    requires
        read.requires((&path,)),
    ensures
        exists|found: Option<Vec<u8>>|
            #[trigger] read_gave(read, &path, found) && (found.is_none() ==> library.is_err()),
{
    let found = read(&path);
    assert(read_gave(read, &path, found));
    match found {
        Some(source) => parse_library(&source),
        None => Err(library_unavailable()),
    }
}

/// What the first word of a line is, as far as it goes, where only the
/// white space of ASCII stands before it.
#[derive(Clone, Copy, PartialEq, Eq, Structural, Debug)]
pub enum Head {
    /// No word has begun.
    Start,
    /// `v`.
    V,
    /// `vt`.
    Vt,
    /// `vn`.
    Vn,
    /// Anything else.
    Other,
}

/// The largest index of a face that can be doubled and tripled: a third of
/// the largest number of the machine.
pub open spec fn largest_index() -> usize {
    (usize::MAX / 3) as usize
}

/// The white space of ASCII.
pub open spec fn space(byte: u8) -> bool {
    (9 <= byte <= 13) || byte == 32
}

/// A byte that may be white space, or part of it: the white space of
/// ASCII, and every byte that is not ASCII.
pub open spec fn blank(byte: u8) -> bool {
    space(byte) || byte >= 128
}

/// A decimal digit.
pub open spec fn digit(byte: u8) -> bool {
    48 <= byte <= 57
}

/// The place of the first byte that is no white space of ASCII on the line
/// of place `n`, among the bytes of the line before `n`; `n` where they are
/// all white space. A line feed ends a line.
pub open spec fn first_byte(source: Seq<u8>, n: int) -> int
    decreases n,
{
    if n <= 0 {
        0
    } else if source[n - 1] == 10 {
        n
    } else if first_byte(source, n - 1) < n - 1 {
        first_byte(source, n - 1)
    } else if space(source[n - 1]) {
        n
    } else {
        n - 1
    }
}

/// The place of the first byte that is not blank on the line of place `n`,
/// among the bytes of the line before `n`; `n` where they are all blank.
pub open spec fn first_mark(source: Seq<u8>, n: int) -> int
    decreases n,
{
    if n <= 0 {
        0
    } else if source[n - 1] == 10 {
        n
    } else if first_mark(source, n - 1) < n - 1 {
        first_mark(source, n - 1)
    } else if blank(source[n - 1]) {
        n
    } else {
        n - 1
    }
}

/// What the bytes of the line of place `n` before `n` are: white space
/// only, or white space and then `v`, `vt` or `vn`, or anything else.
pub open spec fn head_of(source: Seq<u8>, n: int) -> Head {
    let first = first_byte(source, n);
    if first == n {
        Head::Start
    } else if first == n - 1 && source[first] == 118 {
        Head::V
    } else if first == n - 2 && source[first] == 118 && source[first + 1] == 116 {
        Head::Vt
    } else if first == n - 2 && source[first] == 118 && source[first + 1] == 110 {
        Head::Vn
    } else {
        Head::Other
    }
}

/// The line of place `n` may be one of faces or of line elements: the first
/// byte on it that is not blank stands before `n` and is `f` or `l`.
pub open spec fn face_line(source: Seq<u8>, n: int) -> bool {
    let first = first_mark(source, n);
    first < n && (source[first] == 102 || source[first] == 108)
}

/// The number of lines of texture coordinates before place `n`: of places
/// before `n` with white space, and no line feed, right behind a `vt` that
/// begins its line.
pub open spec fn texcoord_lines(source: Seq<u8>, n: int) -> nat
    decreases n,
{
    if n <= 0 {
        0
    } else if source[n - 1] != 10 && space(source[n - 1]) && head_of(source, n - 1) == Head::Vt {
        texcoord_lines(source, n - 1) + 1
    } else {
        texcoord_lines(source, n - 1)
    }
}

/// The number of lines of normals before place `n`: of places before `n`
/// with white space, and no line feed, right behind a `vn` that begins its
/// line.
pub open spec fn normal_lines(source: Seq<u8>, n: int) -> nat
    decreases n,
{
    if n <= 0 {
        0
    } else if source[n - 1] != 10 && space(source[n - 1]) && head_of(source, n - 1) == Head::Vn {
        normal_lines(source, n - 1) + 1
    } else {
        normal_lines(source, n - 1)
    }
}

/// The number of slashes before place `n` since the last blank byte or
/// line feed.
pub open spec fn slashes(source: Seq<u8>, n: int) -> nat
    decreases n,
{
    if n <= 0 || source[n - 1] == 10 || blank(source[n - 1]) {
        0
    } else if source[n - 1] == 47 {
        slashes(source, n - 1) + 1
    } else {
        slashes(source, n - 1)
    }
}

/// Where the digits begin that end right before place `n`; `n` where the
/// byte before it is no digit.
pub open spec fn run_start(source: Seq<u8>, n: int) -> int
    decreases n,
{
    if n <= 0 {
        0
    } else if digit(source[n - 1]) {
        run_start(source, n - 1)
    } else {
        n
    }
}

/// The number that the digits from place `from` to before place `n` make
/// up.
pub open spec fn number(source: Seq<u8>, from: int, n: int) -> nat
    decreases n - from,
{
    if n <= from {
        0
    } else {
        (number(source, from, n - 1) * 10 + (source[n - 1] - 48)) as nat
    }
}

/// The digits that begin at place `from` count back from the end: a minus
/// sign stands before them.
pub open spec fn counts_back(source: Seq<u8>, from: int) -> bool {
    from > 0 && source[from - 1] == 45
}

/// The digit at place `i` makes a wild index. It stands on a line that may
/// be one of faces, and the number that the digits up to it make up is
/// more than [`largest_index`]; or that number counts back from the end,
/// stands behind one slash and is more than the number of lines of texture
/// coordinates so far, or behind two or more and is more than the number of
/// lines of normals so far.
pub open spec fn wild_at(source: Seq<u8>, i: int) -> bool {
    let from = run_start(source, i);
    let index = number(source, from, i + 1);
    &&& digit(source[i])
    &&& face_line(source, i)
    &&& {
        ||| index > largest_index()
        ||| counts_back(source, from) && slashes(source, i) == 1 && index > texcoord_lines(
            source,
            i,
        )
        ||| counts_back(source, from) && slashes(source, i) >= 2 && index > normal_lines(source, i)
    }
}

/// Every index of a face in `source` can be computed with: none is more
/// than [`largest_index`], and none that counts back from the end of the
/// texture coordinates or of the normals reaches before their start.
pub open spec fn tame(source: Seq<u8>) -> bool {
    forall|i: int| 0 <= i < source.len() ==> !wild_at(source, i)
}

/// `value` stands for `index`: it is that number, or, where that number is
/// more than [`largest_index`], some number that is more too.
pub open spec fn stands_for(value: usize, index: nat) -> bool {
    if index <= largest_index() {
        value == index
    } else {
        value > largest_index()
    }
}

/// Whether the bytes of a model file are tame.
pub fn is_tame(source: &Vec<u8>) -> (tame: bool)
    ensures
        tame == self::tame(source@),
{
    let n = source.len();
    let mut head = Head::Start;
    let mut opened = false;
    let mut face = false;
    let mut part: usize = 0;
    let mut minus = false;
    let mut reading = false;
    let mut relative = false;
    let mut value: usize = 0;
    let mut texcoords: usize = 0;
    let mut normals: usize = 0;
    let mut wild = false;
    let mut i: usize = 0;
    while i < n
        invariant
            i <= n,
            n == source@.len(),
            0 <= first_byte(source@, i as int) <= i,
            0 <= first_mark(source@, i as int) <= i,
            0 <= run_start(source@, i as int) <= i,
            head == head_of(source@, i as int),
            opened == (first_mark(source@, i as int) < i),
            face == face_line(source@, i as int),
            part == if slashes(source@, i as int) < 2 {
                slashes(source@, i as int)
            } else {
                2
            },
            minus == counts_back(source@, i as int),
            reading == (run_start(source@, i as int) < i),
            reading ==> relative == counts_back(source@, run_start(source@, i as int)),
            stands_for(value, number(source@, run_start(source@, i as int), i as int)),
            texcoords == texcoord_lines(source@, i as int),
            normals == normal_lines(source@, i as int),
            texcoords <= i,
            normals <= i,
            wild == exists|k: int| 0 <= k < i && wild_at(source@, k),
        decreases n - i,
    {
        let largest = usize::MAX / 3;
        let byte = source[i];
        let is_space = (9 <= byte && byte <= 13) || byte == 32;
        let is_blank = is_space || byte >= 128;
        let ghost before = wild;
        if byte == 10 {
            head = Head::Start;
            opened = false;
            face = false;
            part = 0;
            relative = false;
            value = 0;
        } else {
            if 48 <= byte && byte <= 57 {
                let digit_value: usize = (byte - 48) as usize;
                value = if value > largest / 10 {
                    largest + 1
                } else {
                    value * 10 + digit_value
                };
                if !reading {
                    relative = minus;
                }
                let beyond = relative && ((part == 1 && value > texcoords) || (part == 2 && value
                    > normals));
                if face && (value > largest || beyond) {
                    wild = true;
                }
            } else {
                value = 0;
            }
            if is_space {
                match head {
                    Head::Vt => {
                        texcoords = texcoords + 1;
                    },
                    Head::Vn => {
                        normals = normals + 1;
                    },
                    _ => {},
                }
            }
            head = match head {
                Head::Start => if is_space {
                    Head::Start
                } else if byte == 118 {
                    Head::V
                } else {
                    Head::Other
                },
                Head::V => if byte == 116 {
                    Head::Vt
                } else if byte == 110 {
                    Head::Vn
                } else {
                    Head::Other
                },
                _ => Head::Other,
            };
            if !opened && !is_blank {
                opened = true;
                face = byte == 102 || byte == 108;
            }
            part = if is_blank {
                0
            } else if byte == 47 && part < 2 {
                part + 1
            } else {
                part
            };
        }
        minus = byte == 45;
        reading = 48 <= byte && byte <= 57;
        assert(wild == (before || wild_at(source@, i as int)));
        i = i + 1;
    }
    !wild
}

/// `tobj::load_obj_buf` on the bytes of a model file. Faces are made
/// triangles where `triangulate` is set, and positions, normals and texture
/// coordinates share one index where `single_index` is set. The material
/// libraries that the file names are fetched with [`library`]. Nothing is
/// claimed of what it makes of them.
///
/// The parser doubles the index of a texture coordinate and triples that
/// of a normal without a guard, so it is called for tame bytes only: an
/// index of more than a third of the largest number, or one that counts
/// back from the end to before the start, would be too large for that.
#[verifier::external_body]
fn parse_model<F: Fn(&String) -> Option<Vec<u8>>>(
    source: &Vec<u8>,
    triangulate: bool,
    single_index: bool,
    read: &F,
) -> (parsed: Result<(Vec<tobj::Model>, Result<Vec<tobj::Material>, tobj::LoadError>), tobj::LoadError>)
    requires
        tame(source@),
        forall|path: &String| read.requires((path,)),
{
    let options = tobj::LoadOptions { triangulate, single_index, ..Default::default() };
    tobj::load_obj_buf(
        &mut source.as_slice(),
        &options,
        |path| library(read, path.to_string_lossy().into_owned()),
    )
}

/// The fields of a `tobj::Model` that the engine uses, each number as its
/// bit pattern.
#[verifier::external_body]
fn mesh_of(model: &tobj::Model) -> (mesh: ImportedMesh) {
    ImportedMesh {
        name: model.name.clone(),
        positions: model.mesh.positions.iter().map(|x| x.to_bits()).collect(),
        normals: model.mesh.normals.iter().map(|x| x.to_bits()).collect(),
        texcoords: model.mesh.texcoords.iter().map(|x| x.to_bits()).collect(),
        indices: model.mesh.indices.clone(),
        material_id: model.mesh.material_id,
    }
}

/// The fields of a `tobj::Material` that the engine uses.
#[verifier::external_body]
fn material_of(material: &tobj::Material) -> (imported: ImportedMaterial) {
    ImportedMaterial {
        name: material.name.clone(),
        diffuse_texture: material.diffuse_texture.clone(),
    }
}

/// `loaded` is what loading a model file comes to, as far as it follows
/// from what the reader gave for `file`: the error of kind `Missing` where
/// it gave nothing, the error of kind `Malformed` where it gave bytes that
/// are not tame, and else what the parser makes of the bytes, which is
/// never the error of kind `Missing`.
pub open spec fn model_loaded(
    found: Option<Vec<u8>>,
    file: Seq<char>,
    loaded: Result<ImportedModel, AssetLoadError>,
) -> bool {
    match found {
        None => failed(loaded, file, AssetErrorKind::Missing),
        Some(bytes) => if tame(bytes@) {
            loaded.is_ok() || failed(loaded, file, AssetErrorKind::Malformed) || failed(
                loaded,
                file,
                AssetErrorKind::Library,
            )
        } else {
            failed(loaded, file, AssetErrorKind::Malformed)
        },
    }
}

/// Asks `read` for the model file `file` and parses what it finds, with
/// its faces made triangles and one index for positions, normals and
/// texture coordinates. The material libraries that the file names are
/// asked of `read` too.
///
/// Where `read` finds nothing at `file` the result is the error of kind
/// `Missing`. Bytes that are not tame, and a text that does not parse,
/// give the error of kind `Malformed`, and a text that names a material
/// library that cannot be read or parsed, the error of kind `Library`.
/// Errors name `file`. Of what a text that parses yields nothing is said
/// here: that is left to the parser.
pub fn load_model<F: Fn(&String) -> Option<Vec<u8>>>(file: &String, read: &F) -> (loaded: Result<
    ImportedModel,
    AssetLoadError,
>)
    requires
        forall|path: &String| read.requires((path,)),
    ensures
        exists|found: Option<Vec<u8>>|
            #[trigger] read_gave(read, file, found) && model_loaded(found, file@, loaded),
{
    let found = read(file);
    assert(read_gave(read, file, found));
    let source = match found {
        Some(source) => source,
        None => {
            return Err(AssetLoadError { path: file.clone(), kind: AssetErrorKind::Missing });
        },
    };
    if !is_tame(&source) {
        return Err(AssetLoadError { path: file.clone(), kind: AssetErrorKind::Malformed });
    }
    let (models, libraries) = match parse_model(&source, true, true, read) {
        Ok(parsed) => parsed,
        Err(_) => {
            return Err(AssetLoadError { path: file.clone(), kind: AssetErrorKind::Malformed });
        },
    };
    let materials = match libraries {
        Ok(materials) => materials,
        Err(_) => {
            return Err(AssetLoadError { path: file.clone(), kind: AssetErrorKind::Library });
        },
    };
    let mut imported = ImportedModel { meshes: Vec::new(), materials: Vec::new() };
    let mut i: usize = 0;
    while i < models.len()
        invariant
            i <= models@.len(),
        decreases models@.len() - i,
    {
        imported.meshes.push(mesh_of(&models[i]));
        i = i + 1;
    }
    let mut k: usize = 0;
    while k < materials.len()
        invariant
            k <= materials@.len(),
        decreases materials@.len() - k,
    {
        imported.materials.push(material_of(&materials[k]));
        k = k + 1;
    }
    Ok(imported)
}

/// `tobj::LoadError::OpenFileFailed`, the error of `tobj` for a file that
/// cannot be opened.
#[verifier::external_body]
fn library_unavailable() -> (error: tobj::LoadError) {
    tobj::LoadError::OpenFileFailed
}

/// A model file as it was read: its meshes and the materials of its
/// libraries.
#[derive(Clone, PartialEq, Eq, Debug)]
pub struct ImportedModel {
    pub meshes: Vec<ImportedMesh>,
    pub materials: Vec<ImportedMaterial>,
}

/// The number of vertices of `mesh`: one for every three numbers of its
/// positions.
pub open spec fn vertex_count(mesh: ImportedMesh) -> int {
    mesh.positions@.len() as int / 3
}

/// Why `mesh` cannot be used in a model with `materials` materials, if it
/// cannot: it is too large to be counted, or it names a material that is not
/// there, or a vertex of it lacks texture coordinates; the first of these
/// that holds.
pub open spec fn mesh_fault(mesh: ImportedMesh, materials: int) -> Option<AssetErrorKind> {
    if mesh.indices@.len() > u32::MAX || 8 * vertex_count(mesh) > usize::MAX {
        Some(AssetErrorKind::TooLarge)
    } else if mesh.material_id.is_some() && mesh.material_id.unwrap() >= materials {
        Some(AssetErrorKind::Material)
    } else if mesh.texcoords@.len() < 2 * vertex_count(mesh) {
        Some(AssetErrorKind::Incomplete)
    } else {
        None
    }
}

/// `vertex` is vertex `i` of `mesh`: its position and texture coordinates
/// are those of `mesh`, and so is its normal where `mesh` has one for it;
/// where not, the normal is zero.
pub open spec fn is_vertex(vertex: Vertex, mesh: ImportedMesh, i: int) -> bool {
    &&& vertex.position@ == mesh.positions@.subrange(3 * i, 3 * i + 3)
    &&& vertex.tex_coords@ == mesh.texcoords@.subrange(2 * i, 2 * i + 2)
    &&& vertex.normal@ == if 3 * i + 3 <= mesh.normals@.len() {
        mesh.normals@.subrange(3 * i, 3 * i + 3)
    } else {
        seq![ZERO, ZERO, ZERO]
    }
}

/// `mesh` describes `source` under the name `name`: it has the vertices and
/// indices of `source` and the material that `source` names, or material 0
/// where it names none. Of what is built for it nothing is said.
pub open spec fn describes_mesh(mesh: Mesh, source: ImportedMesh, name: Seq<char>) -> bool {
    &&& mesh.wf()
    &&& mesh.name@ == name
    &&& mesh.vertices@.len() == vertex_count(source)
    &&& forall|i: int|
        0 <= i < vertex_count(source) ==> is_vertex(#[trigger] mesh.vertices@[i], source, i)
    &&& mesh.indices@ == source.indices@
    &&& mesh.material == match source.material_id {
        Some(id) => id,
        None => 0,
    }
}

/// `mesh` is `source` made ready for the builder under the name `name`: it
/// describes `source`, and has no buffers yet.
pub open spec fn imports(mesh: Mesh, source: ImportedMesh, name: Seq<char>) -> bool {
    &&& describes_mesh(mesh, source, name)
    &&& mesh.vertex_buffer.is_none()
    &&& mesh.index_buffer.is_none()
    &&& mesh.num_elements == 0
}

/// `material` describes `source`: the same name and texture. Of what is
/// built for it nothing is said.
pub open spec fn describes_material(material: DiffuseMaterial, source: ImportedMaterial) -> bool {
    &&& material.name@ == source.name@
    &&& material.diffuse_texture@ == source.diffuse_texture@
}

/// `material` is `source` made ready for the builder: it describes
/// `source`, and has no bind group yet.
pub open spec fn imports_material(material: DiffuseMaterial, source: ImportedMaterial) -> bool {
    &&& describes_material(material, source)
    &&& material.diffuse_bind.is_none()
}

/// `renderer` describes `model` under the name `name`: mesh for mesh and
/// material for material, in the order of the file.
pub open spec fn describes_model(renderer: Renderer, model: ImportedModel, name: Seq<char>) -> bool {
    &&& renderer.meshes@.len() == model.meshes@.len()
    &&& renderer.materials@.len() == model.materials@.len()
    &&& forall|i: int|
        0 <= i < model.meshes@.len() ==> describes_mesh(
            #[trigger] renderer.meshes@[i],
            model.meshes@[i],
            name,
        )
    &&& forall|i: int|
        0 <= i < model.materials@.len() ==> describes_material(
            #[trigger] renderer.materials@[i],
            model.materials@[i],
        )
}

/// The first mesh of `meshes[0..n]` that cannot be used, and why.
pub open spec fn first_fault(meshes: Seq<ImportedMesh>, materials: int, n: int) -> Option<
    (int, AssetErrorKind),
>
    decreases n,
{
    if n <= 0 {
        None
    } else {
        match first_fault(meshes, materials, n - 1) {
            Some(fault) => Some(fault),
            None => match mesh_fault(meshes[n - 1], materials) {
                Some(kind) => Some((n - 1, kind)),
                None => None,
            },
        }
    }
}

/// `renderer` is `model` made ready for the builders under the name `name`:
/// mesh for mesh and material for material, in the order of the file.
pub open spec fn imports_model(renderer: Renderer, model: ImportedModel, name: Seq<char>) -> bool {
    &&& renderer.meshes@.len() == model.meshes@.len()
    &&& renderer.materials@.len() == model.materials@.len()
    &&& forall|i: int|
        0 <= i < model.meshes@.len() ==> imports(#[trigger] renderer.meshes@[i], model.meshes@[i], name)
    &&& forall|i: int|
        0 <= i < model.materials@.len() ==> imports_material(
            #[trigger] renderer.materials@[i],
            model.materials@[i],
        )
}

/// Makes one mesh of a model file ready for the builder.
pub fn assemble_mesh(source: &ImportedMesh, name: &String, materials: usize) -> (assembled: Result<
    Mesh,
    AssetErrorKind,
>)
    ensures
        match mesh_fault(*source, materials as int) {
            Some(kind) => assembled == Err::<Mesh, AssetErrorKind>(kind),
            None => assembled.is_ok() && imports(assembled.unwrap(), *source, name@),
        },
{
    let count = source.positions.len() / 3;
    if source.indices.len() > u32::MAX as usize || count > usize::MAX / 8 {
        return Err(AssetErrorKind::TooLarge);
    }
    let material = match source.material_id {
        Some(id) => {
            if id >= materials {
                return Err(AssetErrorKind::Material);
            }
            id
        },
        None => 0,
    };
    if source.texcoords.len() / 2 < count {
        return Err(AssetErrorKind::Incomplete);
    }
    let mut vertices: Vec<Vertex> = Vec::new();
    let mut i: usize = 0;
    while i < count
        invariant
            i <= count,
            count == vertex_count(*source),
            3 * count <= source.positions@.len() <= usize::MAX,
            2 * count <= source.texcoords@.len() <= usize::MAX,
            vertices@.len() == i,
            forall|j: int| 0 <= j < i ==> is_vertex(#[trigger] vertices@[j], *source, j),
        decreases count - i,
    {
        let position = [
            source.positions[3 * i],
            source.positions[3 * i + 1],
            source.positions[3 * i + 2],
        ];
        let tex_coords = [source.texcoords[2 * i], source.texcoords[2 * i + 1]];
        let normal = if 3 * i + 3 <= source.normals.len() {
            [source.normals[3 * i], source.normals[3 * i + 1], source.normals[3 * i + 2]]
        } else {
            [ZERO, ZERO, ZERO]
        };
        let vertex = Vertex { position, tex_coords, normal };
        proof {
            assert(vertex.position@ =~= source.positions@.subrange(3 * i, 3 * i + 3));
            assert(vertex.tex_coords@ =~= source.texcoords@.subrange(2 * i, 2 * i + 2));
            if 3 * i + 3 <= source.normals@.len() {
                assert(vertex.normal@ =~= source.normals@.subrange(3 * i, 3 * i + 3));
            } else {
                assert(vertex.normal@ =~= seq![ZERO, ZERO, ZERO]);
            }
        }
        vertices.push(vertex);
        i = i + 1;
    }
    Ok(
        Mesh {
            name: name.clone(),
            vertices,
            indices: source.indices.clone(),
            vertex_buffer: None,
            index_buffer: None,
            num_elements: 0,
            material,
        },
    )
}

/// Makes a model file ready for the builders, under the name `name`.
///
/// It fails on the first mesh that cannot be used, with the reason. Else
/// there is one mesh for each mesh of the file and one material for each of
/// its materials, in the order of the file, and every mesh refers to a
/// material that is there, or to material 0 where the file names none for it.
pub fn assemble(model: &ImportedModel, name: &String) -> (assembled: Result<Renderer, AssetErrorKind>)
    ensures
        match first_fault(model.meshes@, model.materials@.len() as int, model.meshes@.len() as int) {
            Some(fault) => assembled == Err::<Renderer, AssetErrorKind>(fault.1),
            None => assembled.is_ok() && imports_model(assembled.unwrap(), *model, name@),
        },
{
    let mut meshes: Vec<Mesh> = Vec::new();
    let mut i: usize = 0;
    while i < model.meshes.len()
        invariant
            i <= model.meshes@.len(),
            meshes@.len() == i,
            first_fault(model.meshes@, model.materials@.len() as int, i as int).is_none(),
            forall|j: int| 0 <= j < i ==> imports(#[trigger] meshes@[j], model.meshes@[j], name@),
        decreases model.meshes@.len() - i,
    {
        match assemble_mesh(&model.meshes[i], name, model.materials.len()) {
            Ok(mesh) => {
                meshes.push(mesh);
            },
            Err(kind) => {
                proof {
                    lemma_first_fault_stays(
                        model.meshes@,
                        model.materials@.len() as int,
                        i + 1,
                        model.meshes@.len() as int,
                    );
                }
                return Err(kind);
            },
        }
        i = i + 1;
    }
    let mut materials: Vec<DiffuseMaterial> = Vec::new();
    let mut k: usize = 0;
    while k < model.materials.len()
        invariant
            k <= model.materials@.len(),
            materials@.len() == k,
            forall|j: int|
                0 <= j < k ==> imports_material(#[trigger] materials@[j], model.materials@[j]),
        decreases model.materials@.len() - k,
    {
        materials.push(
            DiffuseMaterial {
                name: model.materials[k].name.clone(),
                diffuse_texture: model.materials[k].diffuse_texture.clone(),
                diffuse_bind: None,
            },
        );
        k = k + 1;
    }
    Ok(Renderer { meshes, materials })
}

/// A fault among the first `n` meshes is the first fault among any more.
pub proof fn lemma_first_fault_stays(meshes: Seq<ImportedMesh>, materials: int, n: int, m: int)
    requires
        0 <= n <= m,
        first_fault(meshes, materials, n).is_some(),
    ensures
        first_fault(meshes, materials, m) == first_fault(meshes, materials, n),
    decreases m - n,
{
    if n < m {
        lemma_first_fault_stays(meshes, materials, n, m - 1);
    }
}

/// What a model file yields, built or not: as many meshes as it has, as
/// many materials as it has, and for every mesh a material index that is
/// the one the file names, which is then the index of one of the materials,
/// or 0 where the file names none.
pub proof fn lemma_import_counts(renderer: Renderer, model: ImportedModel, name: Seq<char>)
    requires
        first_fault(model.meshes@, model.materials@.len() as int, model.meshes@.len() as int).is_none(),
        describes_model(renderer, model, name),
    ensures
        renderer.meshes@.len() == model.meshes@.len(),
        renderer.materials@.len() == model.materials@.len(),
        forall|i: int|
            0 <= i < renderer.meshes@.len() ==> match model.meshes@[i].material_id {
                Some(id) => (#[trigger] renderer.meshes@[i]).material == id && id
                    < renderer.materials@.len(),
                None => (#[trigger] renderer.meshes@[i]).material == 0,
            },
{
    let materials = model.materials@.len() as int;
    assert forall|i: int| 0 <= i < renderer.meshes@.len() implies match model.meshes@[i].material_id {
        Some(id) => (#[trigger] renderer.meshes@[i]).material == id && id < renderer.materials@.len(),
        None => (#[trigger] renderer.meshes@[i]).material == 0,
    } by {
        assert(describes_mesh(renderer.meshes@[i], model.meshes@[i], name));
        lemma_no_fault(model.meshes@, materials, model.meshes@.len() as int, i);
    }
}

/// Where no mesh of the first `n` has a fault, mesh `i` has none.
pub proof fn lemma_no_fault(meshes: Seq<ImportedMesh>, materials: int, n: int, i: int)
    requires
        0 <= i < n,
        first_fault(meshes, materials, n).is_none(),
    ensures
        mesh_fault(meshes[i], materials).is_none(),
    decreases n,
{
    if i < n - 1 {
        lemma_no_fault(meshes, materials, n - 1, i);
    }
}

} // verus!
