//! The stage that follows the window's size.
use crate::components::rendering::{Aspect, Camera};
use crate::gpu::{Command, CommandView, Gpu};
use crate::store::Storage;
use vstd::prelude::*;

verus! {

/// A size in physical pixels.
#[derive(Clone, Copy, PartialEq, Eq, Structural, Debug)]
pub struct PhysicalSize {
    pub width: u32,
    pub height: u32,
}

/// The size that the presentation surface is configured with.
#[derive(Clone, Copy, PartialEq, Eq, Structural, Debug)]
pub struct SurfaceConfiguration {
    pub width: u32,
    pub height: u32,
}

/// What the resize stage did.
#[derive(Clone, Copy, PartialEq, Eq, Structural, Debug)]
pub enum Resize {
    /// The window has no area: nothing was done.
    Rejected,
    /// The surface has the window's size already: nothing was done.
    Unchanged,
    /// The surface was reconfigured, once.
    Reconfigured,
}

/// Reconfigures the surface when the window's size has changed, and gives
/// every camera the new shape.
pub struct ResizingSystem;

/// What the stage does for a window of `size` when the surface has `config`.
pub open spec fn resize_outcome(config: SurfaceConfiguration, size: PhysicalSize) -> Resize {
    if size.width == 0 || size.height == 0 {
        Resize::Rejected
    } else if size.width == config.width && size.height == config.height {
        Resize::Unchanged
    } else {
        Resize::Reconfigured
    }
}

/// The cameras of `slots`, each with the shape `aspect` and nothing else
/// changed.
pub open spec fn reshaped(slots: Seq<Option<Camera>>, aspect: Aspect) -> Seq<Option<Camera>> {
    Seq::new(
        slots.len(),
        |id: int|
            match slots[id] {
                Some(camera) => Some(Camera { aspect, ..camera }),
                None => None,
            },
    )
}

/// The number of times that `commands` reconfigure the surface.
pub open spec fn reconfigurations(commands: Seq<CommandView>) -> nat
    decreases commands.len(),
{
    if commands.len() == 0 {
        0
    } else {
        reconfigurations(commands.drop_last()) + if commands.last() is ConfigureSurface {
            1nat
        } else {
            0nat
        }
    }
}

impl ResizingSystem {
    /// One cycle of the stage.
    ///
    /// A window without area is ignored. A window of the surface's size
    /// needs nothing. Otherwise the configuration takes the window's size,
    /// the surface is reconfigured with it, once, and every camera gets the
    /// shape of the window, width to height.
    pub fn run(
        &self,
        cameras: &mut Storage<Camera>,
        config: &mut SurfaceConfiguration,
        size: &PhysicalSize,
        gpu: &mut Gpu,
    ) -> (outcome: Resize)
        ensures
            outcome == resize_outcome(*old(config), *size),
            final(cameras).pending() == old(cameras).pending(),
            outcome != Resize::Reconfigured ==> {
                &&& *final(config) == *old(config)
                &&& final(cameras)@ == old(cameras)@
                &&& final(gpu)@ == old(gpu)@
            },
            outcome == Resize::Reconfigured ==> {
                &&& *final(config) == (SurfaceConfiguration {
                    width: size.width,
                    height: size.height,
                })
                &&& final(cameras)@ == reshaped(
                    old(cameras)@,
                    Aspect { width: size.width, height: size.height },
                )
                &&& final(gpu)@ == old(gpu)@.issue(
                    CommandView::ConfigureSurface { width: size.width, height: size.height },
                )
            },
            reconfigurations(final(gpu)@.commands) == reconfigurations(old(gpu)@.commands) + if outcome
                == Resize::Reconfigured {
                1nat
            } else {
                0nat
            },
    {
        if size.width == 0 || size.height == 0 {
            return Resize::Rejected;
        }
        if size.width == config.width && size.height == config.height {
            return Resize::Unchanged;
        }
        config.width = size.width;
        config.height = size.height;
        let aspect = Aspect { width: size.width, height: size.height };
        let mut id: usize = 0;
        while id < cameras.slots.len()
            invariant
                id <= cameras@.len(),
                cameras@.len() == old(cameras)@.len(),
                cameras.pending() == old(cameras).pending(),
                forall|j: int|
                    0 <= j < id ==> cameras@[j] == reshaped(old(cameras)@, aspect)[j],
                forall|j: int| id <= j < cameras@.len() ==> cameras@[j] == old(cameras)@[j],
            decreases cameras@.len() - id,
        {
            match &mut cameras.slots[id] {
                Some(camera) => {
                    camera.aspect = aspect;
                },
                None => {},
            }
            id = id + 1;
        }
        assert(cameras@ =~= reshaped(old(cameras)@, aspect));
        let _ = gpu.issue(Command::ConfigureSurface {
            width: size.width,
            height: size.height,
        });
        proof {
            let command = CommandView::ConfigureSurface { width: size.width, height: size.height };
            assert(gpu@.commands.drop_last() =~= old(gpu)@.commands);
            assert(gpu@.commands.last() == command);
        }
        Resize::Reconfigured
    }
}

} // verus!
