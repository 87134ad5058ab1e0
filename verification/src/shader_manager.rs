//! A registry of shaders by name.
use crate::assets::{failed, read_gave, text_of, AssetErrorKind, AssetLoadError};
use crate::gpu::{Gpu, GpuView, Handle};
use crate::material_manager::{register_shader, shader_made, shader_registered};
use vstd::prelude::*;
use vstd::utf8::{decode_utf8, valid_utf8};
use vstd::string::StringExecFns;

verus! {

/// A shader on the device: its module, the layout of its pipeline and the
/// pipeline.
#[derive(Clone, Copy, PartialEq, Eq, Structural, Debug)]
pub struct ShaderInfo {
    pub shader: Handle,
    pub layout: Handle,
    pub pipeline: Handle,
}

/// The shaders that were registered, each under its name.
pub struct ShaderManager {
    shaders: Vec<(String, ShaderInfo)>,
}

/// The shader that `entries[0..n]` holds under `name`: the first, if there
/// are several.
pub open spec fn registered(entries: Seq<(Seq<char>, ShaderInfo)>, name: Seq<char>, n: int) -> Option<
    ShaderInfo,
>
    decreases n,
{
    if n <= 0 {
        None
    } else {
        match registered(entries, name, n - 1) {
            Some(info) => Some(info),
            None => if entries[n - 1].0 == name {
                Some(entries[n - 1].1)
            } else {
                None
            },
        }
    }
}

/// Among entries that differ at `at` alone, where both hold the name
/// `name`, every other name holds what it held, and `name` holds what the
/// first entry with that name holds.
proof fn lemma_registered_update(
    entries: Seq<(Seq<char>, ShaderInfo)>,
    at: int,
    info: ShaderInfo,
    other: Seq<char>,
    n: int,
)
    requires
        0 <= at < entries.len(),
        0 <= n <= entries.len(),
        registered(entries, entries[at].0, at).is_none(),
    ensures
        registered(entries.update(at, (entries[at].0, info)), other, n) == if other
            == entries[at].0 && at < n {
            Some(info)
        } else {
            registered(entries, other, n)
        },
    decreases n,
{
    if n > 0 {
        lemma_registered_update(entries, at, info, other, n - 1);
        if other == entries[at].0 && n - 1 > at {
            lemma_none_before(entries, other, at, n - 1);
        }
    }
}

/// A name that is not held among the first `m` entries is not held among
/// the first `n`, for `n` not more than `m`.
proof fn lemma_none_before(entries: Seq<(Seq<char>, ShaderInfo)>, name: Seq<char>, n: int, m: int)
    requires
        0 <= n <= m,
    ensures
        registered(entries, name, m).is_none() ==> registered(entries, name, n).is_none(),
    decreases m - n,
{
    if n < m {
        lemma_none_before(entries, name, n, m - 1);
    }
}

/// One entry more at the end changes what a name holds only where no entry
/// before it has that name.
proof fn lemma_registered_push(
    entries: Seq<(Seq<char>, ShaderInfo)>,
    entry: (Seq<char>, ShaderInfo),
    other: Seq<char>,
    n: int,
)
    requires
        0 <= n <= entries.len(),
    ensures
        registered(entries.push(entry), other, n) == registered(entries, other, n),
    decreases n,
{
    if n > 0 {
        lemma_registered_push(entries, entry, other, n - 1);
    }
}

/// The shader that the commands of a registration make, when the ledger
/// stands at `gpu`.
pub open spec fn info_made(gpu: GpuView) -> ShaderInfo {
    ShaderInfo {
        shader: shader_made(gpu).shader,
        layout: shader_made(gpu).layout,
        pipeline: shader_made(gpu).pipeline,
    }
}

/// `added` is what registering the shader `name` without bind groups comes
/// to when the reader gave `found` for its file, the registry goes from
/// `before` to `after` and the ledger from `ledger` to `later`. Where the
/// reader gave nothing it is the error of kind `Missing`, and where it gave
/// bytes that are not UTF-8 the error of kind `Malformed`, both about the
/// file `name` with `.wgsl` behind it and with nothing changed. Else the
/// shader is registered with the text that the bytes encode, and the
/// registry holds it under `name`.
pub open spec fn shader_kept(
    found: Option<Vec<u8>>,
    name: Seq<char>,
    before: Map<Seq<char>, ShaderInfo>,
    after: Map<Seq<char>, ShaderInfo>,
    ledger: GpuView,
    later: GpuView,
    added: Result<(), AssetLoadError>,
) -> bool {
    match found {
        None => {
            &&& failed(added, name + ".wgsl"@, AssetErrorKind::Missing)
            &&& after == before
            &&& later == ledger
        },
        Some(bytes) => if valid_utf8(bytes@) {
            &&& added.is_ok()
            &&& shader_registered(ledger, later, name, decode_utf8(bytes@), Seq::empty())
            &&& after == before.insert(name, info_made(ledger))
        } else {
            &&& failed(added, name + ".wgsl"@, AssetErrorKind::Malformed)
            &&& after == before
            &&& later == ledger
        },
    }
}

impl View for ShaderManager {
    type V = Map<Seq<char>, ShaderInfo>;

    /// The shaders by name.
    closed spec fn view(&self) -> Map<Seq<char>, ShaderInfo> {
        Map::new(
            |name: Seq<char>| registered(self.entries(), name, self.entries().len() as int).is_some(),
            |name: Seq<char>| registered(self.entries(), name, self.entries().len() as int).unwrap(),
        )
    }
}

impl ShaderManager {
    spec fn entries(&self) -> Seq<(Seq<char>, ShaderInfo)> {
        Seq::new(self.shaders@.len(), |i: int| (self.shaders@[i].0@, self.shaders@[i].1))
    }

    /// A registry without shaders.
    pub fn new() -> (manager: ShaderManager)
        ensures
            manager@ == Map::<Seq<char>, ShaderInfo>::empty(),
    {
        let manager = ShaderManager { shaders: Vec::new() };
        assert(manager@ =~= Map::<Seq<char>, ShaderInfo>::empty());
        manager
    }

    /// Whether a shader is registered under `name`.
    pub fn contains(&self, name: &String) -> (found: bool)
        ensures
            found == self@.contains_key(name@),
    {
        self.position(name).is_some()
    }

    /// Where the shader `name` stands in the list.
    fn position(&self, name: &String) -> (at: Option<usize>)
        ensures
            at.is_some() == registered(self.entries(), name@, self.entries().len() as int).is_some(),
            at matches Some(at) ==> {
                &&& at < self.shaders@.len()
                &&& self.entries()[at as int].0 == name@
                &&& registered(self.entries(), name@, at as int).is_none()
                &&& registered(self.entries(), name@, self.entries().len() as int) == Some(
                    self.entries()[at as int].1,
                )
            },
    {
        let mut i: usize = 0;
        while i < self.shaders.len()
            invariant
                i <= self.shaders@.len(),
                self.entries().len() == self.shaders@.len(),
                registered(self.entries(), name@, i as int).is_none(),
            decreases self.shaders@.len() - i,
        {
            if self.shaders[i].0 == *name {
                proof {
                    lemma_found_stays(self.entries(), name@, i + 1, self.entries().len() as int);
                }
                return Some(i);
            }
            i = i + 1;
        }
        None
    }

    /// Registers the shader `name`, whose text `read` finds in the file
    /// `name` with `.wgsl` behind it, for pipelines without bind groups. A
    /// shader that was registered under `name` before is replaced.
    ///
    /// It fails, with nothing asked of the device and nothing registered,
    /// where `read` finds no such file (`Missing`) or the file is not UTF-8
    /// text (`Malformed`), and succeeds on every other file: see
    /// [`shader_kept`].
    pub fn add_shader<F: Fn(&String) -> Option<Vec<u8>>>(
        &mut self,
        name: &String,
        read: &F,
        gpu: &mut Gpu,
    ) -> (added: Result<(), AssetLoadError>)
        requires
            forall|path: &String| read.requires((path,)),
        ensures
            exists|file: &String, found: Option<Vec<u8>>|
                {
                    &&& file@ == name@ + ".wgsl"@
                    &&& #[trigger] read_gave(read, file, found)
                    &&& shader_kept(
                        found,
                        name@,
                        old(self)@,
                        final(self)@,
                        old(gpu)@,
                        final(gpu)@,
                        added,
                    )
                },
    {
        let file = name.clone().concat(".wgsl");
        let found = read(&file);
        assert(read_gave(read, &file, found));
        let bytes = match found {
            Some(bytes) => bytes,
            None => {
                return Err(AssetLoadError { path: file, kind: AssetErrorKind::Missing });
            },
        };
        let source = match text_of(bytes) {
            Some(source) => source,
            None => {
                return Err(AssetLoadError { path: file, kind: AssetErrorKind::Malformed });
            },
        };
        let ghost text = source@;
        let layouts: Vec<Handle> = Vec::new();
        assert(layouts@ =~= Seq::empty());
        let shader = register_shader(name, source, layouts, gpu);
        assert(shader_registered(old(gpu)@, gpu@, name@, text, Seq::empty()));
        let info = ShaderInfo {
            shader: shader.shader,
            layout: shader.layout,
            pipeline: shader.pipeline,
        };
        let ghost before = self.entries();
        match self.position(name) {
            Some(at) => {
                self.shaders[at].1 = info;
                proof {
                    assert(self.entries() =~= before.update(at as int, (before[at as int].0, info)));
                    assert forall|other: Seq<char>|
                        registered(self.entries(), other, self.entries().len() as int) == if other
                            == name@ {
                            Some(info)
                        } else {
                            registered(before, other, before.len() as int)
                        } by {
                        lemma_registered_update(before, at as int, info, other, before.len() as int);
                    }
                }
            },
            None => {
                self.shaders.push((name.clone(), info));
                proof {
                    assert(self.entries() =~= before.push((name@, info)));
                    assert forall|other: Seq<char>|
                        registered(self.entries(), other, self.entries().len() as int) == if other
                            == name@ {
                            Some(info)
                        } else {
                            registered(before, other, before.len() as int)
                        } by {
                        lemma_registered_push(before, (name@, info), other, before.len() as int);
                    }
                }
            },
        }
        assert(self@ =~= old(self)@.insert(name@, info));
        Ok(())
    }

    /// The shader that is registered under `name`.
    pub fn get_shader(&self, name: &String) -> (info: &ShaderInfo)
        requires
            self@.contains_key(name@),
        ensures
            *info == self@[name@],
    {
        let at = self.position(name).unwrap();
        &self.shaders[at].1
    }
}

/// A name that is held among the first `n` entries holds the same among the
/// first `m`, for `m` not less than `n`.
proof fn lemma_found_stays(entries: Seq<(Seq<char>, ShaderInfo)>, name: Seq<char>, n: int, m: int)
    requires
        0 <= n <= m,
        registered(entries, name, n).is_some(),
    ensures
        registered(entries, name, m) == registered(entries, name, n),
    decreases m - n,
{
    if n < m {
        lemma_found_stays(entries, name, n, m - 1);
    }
}

} // verus!
