//! The stage that binds the textures of the materials.
use crate::assets::AssetLoadError;
use crate::components::rendering::{scene, DiffuseMaterial, Renderer, RendererView};
use crate::gpu::{extends, Binding, Command, CommandView, Gpu, GpuView, Handle};
use crate::material_manager::{
    failed_loading, grown_by_loading, lemma_grown_by_loading_chains, lemma_grown_by_loading_stays,
    lemma_texture_stays, MaterialManager,
    MaterialManagerView, Texture,
};
use crate::store::Storage;
use vstd::prelude::*;

verus! {

/// Builds the bind group of every material that has none.
pub struct MaterialBuilderSystem;

/// The command that makes the bind group of a material: the view of
/// `texture` at binding 0 and its sampler at binding 1, laid out as `layout`
/// says.
pub open spec fn bind_command(layout: Handle, texture: Texture) -> CommandView {
    CommandView::CreateBindGroup {
        label: "diffuse_bind_group"@,
        layout,
        entries: seq![Binding::TextureView(texture.view), Binding::Sampler(texture.sampler)],
    }
}

/// `material` is `source` with, at most, a bind group where `source` had
/// none.
pub open spec fn kept(source: DiffuseMaterial, material: DiffuseMaterial) -> bool {
    &&& material.name == source.name
    &&& material.diffuse_texture == source.diffuse_texture
    &&& source.diffuse_bind.is_some() ==> material == source
}

/// `material` is `source` with its bind group built: where `source` had
/// none, the bind group is on record in `ledger`, and it binds the texture
/// that `manager` holds under the path of the material.
pub open spec fn bound(
    source: DiffuseMaterial,
    material: DiffuseMaterial,
    manager: MaterialManagerView,
    ledger: GpuView,
) -> bool {
    &&& kept(source, material)
    &&& material.diffuse_bind.is_some()
    &&& source.diffuse_bind.is_none() ==> {
        let bind = material.diffuse_bind.unwrap();
        &&& ledger.knows(bind)
        &&& bind.batch == ledger.batch
        &&& manager.texture(source.diffuse_texture@).is_some()
        &&& ledger.commands[bind.index as int] == bind_command(
            manager.texture_bind_group_layout,
            manager.texture(source.diffuse_texture@).unwrap(),
        )
    }
}

/// `materials` are `sources`, one for one, each with at most a bind group
/// more.
pub open spec fn all_kept(sources: Seq<DiffuseMaterial>, materials: Seq<DiffuseMaterial>) -> bool {
    &&& materials.len() == sources.len()
    &&& forall|i: int| 0 <= i < sources.len() ==> kept(sources[i], #[trigger] materials[i])
}

/// The first `n` of `materials` are the first `n` of `sources` with their
/// bind groups built.
pub open spec fn bound_below(
    sources: Seq<DiffuseMaterial>,
    materials: Seq<DiffuseMaterial>,
    manager: MaterialManagerView,
    ledger: GpuView,
    n: int,
) -> bool {
    forall|i: int| 0 <= i < n ==> bound(sources[i], #[trigger] materials[i], manager, ledger)
}

/// Every material of `materials[0..n]` has its bind group.
pub open spec fn all_bound(materials: Seq<DiffuseMaterial>, n: int) -> bool {
    forall|i: int| 0 <= i < n ==> (#[trigger] materials[i]).diffuse_bind.is_some()
}

/// The binding of `sources` stopped at one of them that has no bind group
/// and whose texture is at `path`: in `materials` that one and all after it
/// are as they were.
pub open spec fn stopped_binding(
    sources: Seq<DiffuseMaterial>,
    materials: Seq<DiffuseMaterial>,
    path: Seq<char>,
) -> bool {
    exists|i: int|
        {
            &&& 0 <= i < sources.len()
            &&& (#[trigger] sources[i]).diffuse_bind.is_none()
            &&& sources[i].diffuse_texture@ == path
            &&& forall|j: int| i <= j < sources.len() ==> materials[j] == sources[j]
        }
}

/// `renderers` are `sources`, entity for entity: the same meshes, and the
/// same materials with at most bind groups more.
pub open spec fn scene_kept(sources: Seq<Option<Renderer>>, renderers: Seq<Option<Renderer>>) -> bool {
    &&& renderers.len() == sources.len()
    &&& forall|id: int|
        0 <= id < sources.len() ==> match sources[id] {
            Some(source) => {
                &&& (#[trigger] renderers[id]).is_some()
                &&& renderers[id].unwrap().meshes == source.meshes
                &&& all_kept(source.materials@, renderers[id].unwrap().materials@)
            },
            None => (#[trigger] renderers[id]).is_none(),
        }
}

/// The renderers below `n` are those of `sources` with every bind group
/// built.
pub open spec fn scene_bound_below(
    sources: Seq<Option<Renderer>>,
    renderers: Seq<Option<Renderer>>,
    manager: MaterialManagerView,
    ledger: GpuView,
    n: int,
) -> bool {
    forall|id: int|
        0 <= id < n && (#[trigger] sources[id]).is_some() ==> bound_below(
            sources[id].unwrap().materials@,
            renderers[id].unwrap().materials@,
            manager,
            ledger,
            sources[id].unwrap().materials@.len() as int,
        )
}

/// Every material of every renderer below `n` has its bind group.
pub open spec fn scene_bound(renderers: Seq<Option<RendererView>>, n: int) -> bool {
    forall|id: int|
        0 <= id < n && (#[trigger] renderers[id]).is_some() ==> all_bound(
            renderers[id].unwrap().materials,
            renderers[id].unwrap().materials.len() as int,
        )
}

/// The binding of `sources` stopped in one of them at a material that has
/// no bind group and whose texture is at `path`: in `renderers` that
/// material and all after it, and every renderer after that one, are as
/// they were.
pub open spec fn scene_stopped(
    sources: Seq<Option<Renderer>>,
    renderers: Seq<Option<Renderer>>,
    path: Seq<char>,
) -> bool {
    exists|id: int|
        {
            &&& 0 <= id < sources.len()
            &&& (#[trigger] sources[id]).is_some()
            &&& renderers[id].is_some()
            &&& stopped_binding(
                sources[id].unwrap().materials@,
                renderers[id].unwrap().materials@,
                path,
            )
            &&& forall|j: int| id < j < sources.len() ==> renderers[j] == sources[j]
        }
}

/// What was bound stays bound when the ledger and the registry grow.
pub proof fn lemma_bound_stays(
    source: DiffuseMaterial,
    material: DiffuseMaterial,
    manager: MaterialManagerView,
    ledger: GpuView,
    later_manager: MaterialManagerView,
    later: GpuView,
)
    requires
        bound(source, material, manager, ledger),
        manager.grows_to(later_manager),
        extends(ledger, later),
    ensures
        bound(source, material, later_manager, later),
{
    if source.diffuse_bind.is_none() {
        lemma_texture_stays(manager, later_manager, source.diffuse_texture@);
    }
}

/// Materials that were bound stay bound when the ledger and the registry
/// grow.
pub proof fn lemma_bound_below_stays(
    sources: Seq<DiffuseMaterial>,
    materials: Seq<DiffuseMaterial>,
    manager: MaterialManagerView,
    ledger: GpuView,
    later_manager: MaterialManagerView,
    later: GpuView,
    n: int,
)
    requires
        bound_below(sources, materials, manager, ledger, n),
        manager.grows_to(later_manager),
        extends(ledger, later),
    ensures
        bound_below(sources, materials, later_manager, later, n),
{
    assert forall|i: int| 0 <= i < n implies bound(
        sources[i],
        #[trigger] materials[i],
        later_manager,
        later,
    ) by {
        lemma_bound_stays(sources[i], materials[i], manager, ledger, later_manager, later);
    }
}

/// Renderers whose materials were all bound have no material without a
/// bind group.
pub proof fn lemma_all_bound(
    sources: Seq<Option<Renderer>>,
    renderers: Seq<Option<Renderer>>,
    manager: MaterialManagerView,
    ledger: GpuView,
)
    requires
        scene_kept(sources, renderers),
        scene_bound_below(sources, renderers, manager, ledger, sources.len() as int),
    ensures
        scene_bound(scene(renderers), renderers.len() as int),
{
    assert forall|id: int| 0 <= id < renderers.len() && (#[trigger] scene(renderers)[id]).is_some() implies
        all_bound(
        scene(renderers)[id].unwrap().materials,
        scene(renderers)[id].unwrap().materials.len() as int,
    ) by {
        assert(renderers[id].is_some());
        assert(sources[id].is_some());
        let before = sources[id].unwrap().materials@;
        let after = renderers[id].unwrap().materials@;
        assert(all_kept(before, after));
        assert(bound_below(before, after, manager, ledger, before.len() as int));
        assert forall|i: int| 0 <= i < after.len() implies (#[trigger] after[i]).diffuse_bind.is_some() by {
            assert(bound(before[i], after[i], manager, ledger));
        }
    }
}

impl MaterialBuilderSystem {
    /// Gives `material` a bind group for `texture`.
    pub fn bind(material: &mut DiffuseMaterial, texture: Texture, layout: Handle, gpu: &mut Gpu)
        ensures
            final(material).name == old(material).name,
            final(material).diffuse_texture == old(material).diffuse_texture,
            final(material).diffuse_bind == Some(old(gpu)@.next()),
            old(gpu)@.next().index == old(gpu)@.commands.len(),
            final(gpu)@ == old(gpu)@.issue(bind_command(layout, texture)),
    {
        let mut entries: Vec<Binding> = Vec::new();
        entries.push(Binding::TextureView(texture.view));
        entries.push(Binding::Sampler(texture.sampler));
        assert(entries@ =~= seq![
            Binding::TextureView(texture.view),
            Binding::Sampler(texture.sampler),
        ]);
        let label = "diffuse_bind_group".to_owned();
        let bind = gpu.issue(Command::CreateBindGroup { label, layout, entries });
        material.diffuse_bind = Some(bind);
    }

    /// Builds the bind group of every material of `materials` that has
    /// none, first to last, from the texture that the registry holds under
    /// the material's path or loads from there. It stops at the first
    /// texture that cannot be loaded, with the error, and leaves the
    /// material of that texture and all after it as they were. Only a
    /// texture that the registry does not hold can fail.
    ///
    /// Whatever happens, nothing but missing bind groups is filled in.
    /// Where none is missing, it succeeds with nothing read and nothing
    /// asked of the device.
    pub fn bind_all<F: Fn(&String) -> Option<Vec<u8>>>(
        materials: &mut Vec<DiffuseMaterial>,
        manager: &mut MaterialManager,
        read: &F,
        gpu: &mut Gpu,
    ) -> (done: Result<(), AssetLoadError>)
        requires
            forall|path: &String| read.requires((path,)),
        ensures
            all_kept(old(materials)@, final(materials)@),
            old(manager)@.grows_to(final(manager)@),
            grown_by_loading(read, old(manager)@, final(manager)@, final(gpu)@),
            extends(old(gpu)@, final(gpu)@),
            done.is_ok() ==> bound_below(
                old(materials)@,
                final(materials)@,
                final(manager)@,
                final(gpu)@,
                old(materials)@.len() as int,
            ),
            done matches Err(error) ==> {
                &&& failed_loading(read, error)
                &&& final(manager)@.texture(error.path@).is_none()
                &&& stopped_binding(old(materials)@, final(materials)@, error.path@)
            },
            all_bound(old(materials)@, old(materials)@.len() as int) ==> {
                &&& done.is_ok()
                &&& final(gpu)@ == old(gpu)@
                &&& final(manager)@ == old(manager)@
            },
    {
        let ghost sources = materials@;
        let ghost first_ledger = gpu@;
        let ghost first_registry = manager@;
        let mut i: usize = 0;
        while i < materials.len()
            invariant
                i <= materials@.len(),
                sources == old(materials)@,
                first_ledger == old(gpu)@,
                first_registry == old(manager)@,
                forall|path: &String| read.requires((path,)),
                all_kept(sources, materials@),
                forall|j: int| i <= j < materials@.len() ==> materials@[j] == sources[j],
                first_registry.grows_to(manager@),
                grown_by_loading(read, first_registry, manager@, gpu@),
                extends(first_ledger, gpu@),
                bound_below(sources, materials@, manager@, gpu@, i as int),
                all_bound(sources, i as int) ==> gpu@ == first_ledger && manager@ == first_registry,
            decreases materials@.len() - i,
        {
            let ghost before = gpu@;
            let ghost registry = manager@;
            let ghost so_far = materials@;
            if materials[i].diffuse_bind.is_none() {
                let texture = match manager.get_texture(&materials[i].diffuse_texture, read, gpu) {
                    Ok(texture) => texture,
                    Err(error) => {
                        assert(sources[i as int].diffuse_bind.is_none());
                        return Err(error);
                    },
                };
                let ghost loaded = gpu@;
                proof {
                    lemma_grown_by_loading_stays(read, first_registry, registry, before, loaded);
                    assert(grown_by_loading(read, first_registry, manager@, loaded));
                }
                let layout = *manager.get_texture_bind_group_layout();
                Self::bind(&mut materials[i], texture, layout, gpu);
                proof {
                    lemma_grown_by_loading_stays(read, first_registry, manager@, loaded, gpu@);
                }
                assert(materials@[i as int].diffuse_bind.unwrap().index == loaded.commands.len());
            }
            proof {
                lemma_bound_below_stays(sources, so_far, registry, before, manager@, gpu@, i as int);
            }
            i = i + 1;
        }
        Ok(())
    }

    /// One cycle of the stage: visits the entities that have a renderer, in
    /// rising order of id, and builds the bind group of every material that
    /// has none, as [`MaterialBuilderSystem::bind_all`] does.
    ///
    /// The first texture that cannot be loaded ends the cycle with its
    /// error; the material of that texture and everything after it is left
    /// as it was. Whatever happens, nothing but missing bind groups is filled
    /// in, and a cycle in which none is missing succeeds with nothing read
    /// and nothing asked of the device.
    pub fn run<F: Fn(&String) -> Option<Vec<u8>>>(
        &self,
        renderers: &mut Storage<Renderer>,
        manager: &mut MaterialManager,
        read: &F,
        gpu: &mut Gpu,
    ) -> (done: Result<(), AssetLoadError>)
        requires
            forall|path: &String| read.requires((path,)),
        ensures
            final(renderers).pending() == old(renderers).pending(),
            scene_kept(old(renderers)@, final(renderers)@),
            old(manager)@.grows_to(final(manager)@),
            grown_by_loading(read, old(manager)@, final(manager)@, final(gpu)@),
            extends(old(gpu)@, final(gpu)@),
            done.is_ok() ==> scene_bound_below(
                old(renderers)@,
                final(renderers)@,
                final(manager)@,
                final(gpu)@,
                old(renderers)@.len() as int,
            ),
            done matches Err(error) ==> {
                &&& failed_loading(read, error)
                &&& final(manager)@.texture(error.path@).is_none()
                &&& scene_stopped(old(renderers)@, final(renderers)@, error.path@)
            },
            scene_bound(scene(old(renderers)@), old(renderers)@.len() as int) ==> {
                &&& done.is_ok()
                &&& final(gpu)@ == old(gpu)@
                &&& final(manager)@ == old(manager)@
            },
    {
        let ghost sources = renderers@;
        let ghost first_ledger = gpu@;
        let ghost first_registry = manager@;
        let mut id: usize = 0;
        while id < renderers.slots.len()
            invariant
                id <= renderers@.len(),
                renderers.pending() == old(renderers).pending(),
                sources == old(renderers)@,
                first_ledger == old(gpu)@,
                first_registry == old(manager)@,
                forall|path: &String| read.requires((path,)),
                scene_kept(sources, renderers@),
                forall|j: int| id <= j < renderers@.len() ==> renderers@[j] == sources[j],
                first_registry.grows_to(manager@),
                grown_by_loading(read, first_registry, manager@, gpu@),
                extends(first_ledger, gpu@),
                scene_bound_below(sources, renderers@, manager@, gpu@, id as int),
                scene_bound(scene(sources), id as int) ==> gpu@ == first_ledger && manager@
                    == first_registry,
            decreases renderers@.len() - id,
        {
            let ghost before = gpu@;
            let ghost registry = manager@;
            let ghost so_far = renderers@;
            assert(scene(sources)[id as int].is_some() == sources[id as int].is_some());
            match &mut renderers.slots[id] {
                Some(renderer) => {
                    assert(scene(sources)[id as int].unwrap().materials
                        == sources[id as int].unwrap().materials@);
                    let bound = Self::bind_all(&mut renderer.materials, manager, read, gpu);
                    proof {
                        lemma_grown_by_loading_chains(
                            read,
                            first_registry,
                            registry,
                            manager@,
                            before,
                            gpu@,
                        );
                    }
                    match bound {
                        Ok(()) => {},
                        Err(error) => {
                            assert(stopped_binding(
                                sources[id as int].unwrap().materials@,
                                renderer.materials@,
                                error.path@,
                            ));
                            return Err(error);
                        },
                    }
                },
                None => {},
            }
            assert forall|j: int| 0 <= j < id + 1 && (#[trigger] sources[j]).is_some() implies bound_below(
                sources[j].unwrap().materials@,
                renderers@[j].unwrap().materials@,
                manager@,
                gpu@,
                sources[j].unwrap().materials@.len() as int,
            ) by {
                if j < id {
                    assert(renderers@[j] == so_far[j]);
                    lemma_bound_below_stays(
                        sources[j].unwrap().materials@,
                        so_far[j].unwrap().materials@,
                        registry,
                        before,
                        manager@,
                        gpu@,
                        sources[j].unwrap().materials@.len() as int,
                    );
                }
            }
            id = id + 1;
        }
        Ok(())
    }
}

} // verus!
