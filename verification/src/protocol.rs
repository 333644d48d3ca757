//! The messages between the host and the panel: what the compositor reported,
//! and what the host is to do about it.

use crate::config::Anchor;
use crate::input::{PointerEvent, SurfaceId, WindowEvent};
use crate::surface::OutputId;
use vstd::prelude::*;

verus! {

/// A capability of the session that the panel cannot work without.
#[derive(Debug, Clone, Copy, PartialEq, Eq, Structural)]
pub enum Capability {
    /// The object that makes surfaces.
    Compositor,
    /// The allocator of memory shared with the compositor.
    SharedMemory,
    /// The shell extension that pins surfaces to screen edges.
    LayerShell,
}

/// What a seat can offer.
#[derive(Debug, Clone, Copy, PartialEq, Eq, Structural)]
pub enum SeatCapability {
    Keyboard,
    Pointer,
    Touch,
}

/// The capabilities that the session offers.
#[derive(Debug, Clone, Copy, PartialEq, Eq, Structural)]
pub struct Globals {
    pub compositor: bool,
    pub shared_memory: bool,
    pub layer_shell: bool,
}

/// The failures that end the session.
#[derive(Debug, Clone, Copy, PartialEq, Eq, Structural)]
pub enum BarError {
    /// A required capability is not there.
    CapabilityMissing(Capability),
    /// The connection to the compositor closed or failed.
    ConnectionLost,
    /// No frame of the size asked for can exist.
    BufferAllocationFailed,
}

/// Something the compositor reported.
#[derive(Debug, Clone, Copy, PartialEq, Eq, Structural)]
pub enum Event {
    /// An output appeared; the host made `surface` for it.
    OutputAdded { output: OutputId, surface: SurfaceId },
    /// Something about an output changed.
    OutputUpdated { output: OutputId },
    /// An output went away.
    OutputRemoved { output: OutputId },
    /// The compositor proposed a size for a surface.
    Configured { surface: SurfaceId, width: u32, height: u32 },
    /// The compositor is ready for the next frame of a surface.
    FrameDone { surface: SurfaceId },
    /// The compositor closed a surface.
    Closed { surface: SurfaceId },
    /// The pointer did something.
    Pointer(PointerEvent),
    /// A seat gained a capability.
    CapabilityAdded(SeatCapability),
    /// A seat lost a capability.
    CapabilityRemoved(SeatCapability),
    /// The session lost a capability.
    GlobalRemoved(Capability),
}

/// What the host got from waiting on the connection.
#[derive(Debug, Clone)]
pub enum Dispatch {
    /// The events that arrived, in their order.
    Batch(Vec<Event>),
    /// The connection closed or failed.
    Lost,
}

/// Something for the host to do.
#[allow(inconsistent_fields)]
#[derive(Debug, Clone, Copy, PartialEq, Eq, Structural)]
pub enum Action {
    /// Give the surface its role on the output: on the top layer, pinned to
    /// `anchor`, of the size given, reserving `exclusive_zone` pixels of the
    /// screen, taking no keyboard input; then commit it with no frame
    /// attached.
    MapSurface {
        surface: SurfaceId,
        output: OutputId,
        anchor: Anchor,
        width: u32,
        height: u32,
        exclusive_zone: i32,
    },
    /// Release the surface.
    DestroySurface { surface: SurfaceId },
    /// Show the frame in `slot` on the surface: mark the whole area from the
    /// origin to `width` by `height` as damaged, ask to be told when the
    /// frame is done, attach the frame, which starts `offset` bytes into the
    /// pool and has rows of `stride` bytes, and commit.
    Present { surface: SurfaceId, slot: usize, offset: i32, width: i32, height: i32, stride: i32 },
    /// No frame could be had for the surface: ask to be told when the next
    /// frame is due and commit, so that the draw is tried again then.
    AwaitFrame { surface: SurfaceId },
    /// Hand the event to the renderer, as pointer input on the surface.
    Deliver { surface: SurfaceId, event: WindowEvent },
    /// Take the seat's pointer.
    AcquirePointer,
    /// Give the seat's pointer back.
    ReleasePointer,
}

impl Globals {
    /// These capabilities without the given one.
    pub open spec fn without(self, capability: Capability) -> Globals {
        match capability {
            Capability::Compositor => Globals { compositor: false, ..self },
            Capability::SharedMemory => Globals { shared_memory: false, ..self },
            Capability::LayerShell => Globals { layer_shell: false, ..self },
        }
    }

    /// Takes the given capability away.
    pub fn remove(&mut self, capability: Capability)
        ensures
            *final(self) == old(self).without(capability),
    {
        match capability {
            Capability::Compositor => {
                self.compositor = false;
            },
            Capability::SharedMemory => {
                self.shared_memory = false;
            },
            Capability::LayerShell => {
                self.layer_shell = false;
            },
        }
    }
}

} // verus!
