//! The panel as a state machine: what each event does to the state, and what
//! the host is told to do. The executable panel is proved against these
//! functions; the laws of the panel are proved of them.

use crate::buffer::{presentable, PoolModel};
use crate::config::Anchor;
use crate::input::{translation, PointerEvent, PointerState, SurfaceId};
use crate::pixel::RgbaPixel;
use crate::protocol::{Action, BarError, Capability, Event, Globals, SeatCapability};
use crate::surface::{
    acknowledge, any_configured, awaits_configure, distinct_outputs, has_output, has_surface,
    shows_surface, unshow, BarInstance, InstanceKey, OutputId,
};
use vstd::prelude::*;

verus! {

/// The width and height taken where the compositor proposes none.
pub const FALLBACK_SIZE: u32 = 256;

/// The size that a proposal leads to: the proposal itself, or the fallback
/// where either side of it is zero.
pub open spec fn effective_size(width: u32, height: u32) -> (u32, u32) {
    if width == 0 || height == 0 {
        (FALLBACK_SIZE, FALLBACK_SIZE)
    } else {
        (width, height)
    }
}

/// One more, as far as the counter goes.
pub open spec fn bumped(count: u32) -> u32 {
    if count < u32::MAX {
        (count + 1) as u32
    } else {
        count
    }
}

/// The whole state of a panel.
pub struct BarModel {
    /// The capabilities the session still offers.
    pub globals: Globals,
    /// The edge the panel is pinned to.
    pub anchor: Anchor,
    /// The size the host asked for.
    pub panel_width: u32,
    pub panel_height: u32,
    /// The size the compositor last settled on.
    pub width: u32,
    pub height: u32,
    /// The renderer's pixels, row after row.
    pub pixels: Seq<RgbaPixel>,
    pub pool: PoolModel,
    /// The live instances, oldest first.
    pub instances: Seq<BarInstance>,
    /// Whether the panel holds the seat's pointer.
    pub pointer: bool,
    /// Whether the last surface was closed.
    pub exit: bool,
    /// How many draws in a row left a configured instance without a frame.
    pub missed: u32,
}

/// A state together with what the host is to do on the way there.
pub struct Outcome {
    pub state: BarModel,
    pub actions: Seq<Action>,
}

/// Every frame that an instance shows exists and is busy.
pub open spec fn fronts_held(instances: Seq<BarInstance>, busy: Seq<bool>) -> bool {
    forall|i: int|
        0 <= i < instances.len() ==> ((#[trigger] instances[i]).front matches Some(f) ==> f
            < busy.len() && busy[f as int])
}

/// No two instances show the same frame.
pub open spec fn fronts_apart(instances: Seq<BarInstance>) -> bool {
    forall|i: int, j: int|
        0 <= i < j < instances.len() ==> ((#[trigger] instances[i]).front is Some
            ==> instances[i].front != (#[trigger] instances[j]).front)
}

/// Some instance shows the frame.
pub open spec fn shown_by(instances: Seq<BarInstance>, slot: usize) -> bool {
    exists|i: int| 0 <= i < instances.len() && (#[trigger] instances[i]).front == Some(slot)
}

/// Every busy frame is one that an instance shows.
pub open spec fn busy_shown(instances: Seq<BarInstance>, busy: Seq<bool>) -> bool {
    forall|k: int| 0 <= k < busy.len() && #[trigger] busy[k] ==> shown_by(instances, k as usize)
}

impl BarModel {
    pub open spec fn wf(self) -> bool {
        &&& self.pool.wf()
        &&& presentable(self.panel_width, self.panel_height)
        &&& self.width > 0
        &&& self.height > 0
        &&& distinct_outputs(self.instances)
        &&& fronts_held(self.instances, self.pool.busy)
        &&& fronts_apart(self.instances)
        &&& busy_shown(self.instances, self.pool.busy)
    }

    /// The state in which a panel starts.
    pub open spec fn initial(
        globals: Globals,
        anchor: Anchor,
        width: u32,
        height: u32,
        start_pixel: RgbaPixel,
    ) -> BarModel {
        BarModel {
            globals,
            anchor,
            panel_width: width,
            panel_height: height,
            width,
            height,
            pixels: Seq::new((width as int * height as int) as nat, |i: int| start_pixel),
            pool: PoolModel::fresh(width, height),
            instances: Seq::empty(),
            pointer: false,
            exit: false,
            missed: 0,
        }
    }
}

/// Why a panel cannot start, if it cannot: shared memory is missing, or no
/// frame of the size asked for can exist, or the layer shell is missing, or
/// the compositor is; the first of these that holds.
pub open spec fn startup_failure(globals: Globals, width: u32, height: u32) -> Option<BarError> {
    if !globals.shared_memory {
        Some(BarError::CapabilityMissing(Capability::SharedMemory))
    } else if !presentable(width, height) {
        Some(BarError::BufferAllocationFailed)
    } else if !globals.layer_shell {
        Some(BarError::CapabilityMissing(Capability::LayerShell))
    } else if !globals.compositor {
        Some(BarError::CapabilityMissing(Capability::Compositor))
    } else {
        None
    }
}

/// The state as it is, with nothing to do.
pub open spec fn idle(m: BarModel) -> Outcome {
    Outcome { state: m, actions: Seq::empty() }
}

/// How the frame in `slot` of `pool` is presented on `surface`.
pub open spec fn present_action(pool: PoolModel, surface: SurfaceId, slot: int) -> Action {
    Action::Present {
        surface,
        slot: slot as usize,
        offset: (slot * pool.frame_len()) as i32,
        width: pool.width as i32,
        height: pool.height as i32,
        stride: (pool.width as int * 4) as i32,
    }
}

/// How far a draw has come: the pool and the instances as they are by then,
/// what the host is to do, the frames that were shown before and are not any
/// more, and whether an instance went without a frame.
pub struct Sweep {
    pub pool: PoolModel,
    pub instances: Seq<BarInstance>,
    pub actions: Seq<Action>,
    pub retired: Seq<usize>,
    pub missed: bool,
}

/// Draws for the instance at `i`, if it is configured: takes a frame that is
/// not busy, writes the image of the pixels into it and presents it; the
/// frame shown so far is retired. Where no frame can be had, the instance
/// waits for the next frame.
pub open spec fn sweep_one(s: Sweep, i: int, pixels: Seq<RgbaPixel>) -> Sweep {
    let instance = s.instances[i];
    if !instance.configured {
        s
    } else {
        match s.pool.acquired() {
            Some(k) => Sweep {
                pool: s.pool.after_acquire().after_composite(k, pixels),
                instances: s.instances.update(i, instance.showing(k as usize)),
                actions: s.actions.push(present_action(s.pool, instance.surface, k)),
                retired: match instance.front {
                    Some(f) => s.retired.push(f),
                    None => s.retired,
                },
                missed: s.missed,
            },
            None => Sweep {
                actions: s.actions.push(Action::AwaitFrame { surface: instance.surface }),
                missed: true,
                ..s
            },
        }
    }
}

/// A draw after the first `n` instances.
pub open spec fn sweep(
    pool: PoolModel,
    instances: Seq<BarInstance>,
    pixels: Seq<RgbaPixel>,
    n: int,
) -> Sweep
    decreases n,
{
    if n <= 0 {
        Sweep { pool, instances, actions: Seq::empty(), retired: Seq::empty(), missed: false }
    } else {
        sweep_one(sweep(pool, instances, pixels, n - 1), n - 1, pixels)
    }
}

/// The pool with the given frames released, the first `n` of them.
pub open spec fn release_all(pool: PoolModel, retired: Seq<usize>, n: int) -> PoolModel
    decreases n,
{
    if n <= 0 {
        pool
    } else {
        release_all(pool, retired, n - 1).after_release(retired[n - 1] as int)
    }
}

/// What the first `n` instances are told where no frame of the current size
/// can exist: each configured one waits for the next frame.
pub open spec fn postponed(instances: Seq<BarInstance>, n: int) -> Seq<Action>
    decreases n,
{
    if n <= 0 {
        Seq::empty()
    } else if instances[n - 1].configured {
        postponed(instances, n - 1).push(Action::AwaitFrame { surface: instances[n - 1].surface })
    } else {
        postponed(instances, n - 1)
    }
}

/// A draw: every configured instance, oldest first, gets a frame of the
/// current size with the image of the pixels. Nothing happens where no
/// instance is configured.
///
/// Where the pool holds frames of another size it is made anew, and what the
/// instances showed is forgotten with it. Where no frame of the current size
/// can exist, every configured instance waits for the next frame. The frames
/// that instances showed before the draw are written by no part of it; they
/// are released at its end.
pub open spec fn draw(m: BarModel) -> Outcome {
    if !any_configured(m.instances) {
        idle(m)
    } else {
        let pool = m.pool.after_resize(m.width, m.height);
        if !(pool.width == m.width && pool.height == m.height) {
            Outcome {
                state: BarModel { missed: bumped(m.missed), ..m },
                actions: postponed(m.instances, m.instances.len() as int),
            }
        } else {
            let instances = if m.pool.width == m.width && m.pool.height == m.height {
                m.instances
            } else {
                m.instances.map_values(unshow())
            };
            let s = sweep(pool, instances, m.pixels, instances.len() as int);
            Outcome {
                state: BarModel {
                    pool: release_all(s.pool, s.retired, s.retired.len() as int),
                    instances: s.instances,
                    missed: if s.missed {
                        bumped(m.missed)
                    } else {
                        0
                    },
                    ..m
                },
                actions: s.actions,
            }
        }
    }
}

/// How far a removal has come: the pool, the instances kept so far, and what
/// the host is to do.
pub struct Cull {
    pub pool: PoolModel,
    pub kept: Seq<BarInstance>,
    pub actions: Seq<Action>,
}

/// The removal of the instances that `key` picks, after the first `n`
/// instances: each one picked is dropped, its surface destroyed and the frame
/// it showed released; the others stay in their order.
pub open spec fn cull(pool: PoolModel, instances: Seq<BarInstance>, key: InstanceKey, n: int) -> Cull
    decreases n,
{
    if n <= 0 {
        Cull { pool, kept: Seq::empty(), actions: Seq::empty() }
    } else {
        let c = cull(pool, instances, key, n - 1);
        let instance = instances[n - 1];
        if instance.matches(key) {
            Cull {
                pool: match instance.front {
                    Some(f) => c.pool.after_release(f as int),
                    None => c.pool,
                },
                kept: c.kept,
                actions: c.actions.push(Action::DestroySurface { surface: instance.surface }),
            }
        } else {
            Cull { kept: c.kept.push(instance), ..c }
        }
    }
}

/// The removal of the instances that `key` picks.
pub open spec fn retire(m: BarModel, key: InstanceKey) -> Outcome {
    let c = cull(m.pool, m.instances, key, m.instances.len() as int);
    Outcome { state: BarModel { pool: c.pool, instances: c.kept, ..m }, actions: c.actions }
}

/// An output appeared. Without the layer shell no surface can be given its
/// role: that ends the session. An output that has its instance already is
/// passed over. Else a new instance waits for its first configuration, and
/// the host maps its surface with the panel's anchor and the size asked for,
/// reserving the panel's thickness.
pub open spec fn on_output_added(m: BarModel, output: OutputId, surface: SurfaceId) -> Result<
    Outcome,
    BarError,
> {
    if !m.globals.layer_shell {
        Err(BarError::CapabilityMissing(Capability::LayerShell))
    } else if has_output(m.instances, output) {
        Ok(idle(m))
    } else {
        Ok(
            Outcome {
                state: BarModel {
                    instances: m.instances.push(BarInstance::pending(surface, output)),
                    ..m
                },
                actions: seq![
                    Action::MapSurface {
                        surface,
                        output,
                        anchor: m.anchor,
                        width: m.panel_width,
                        height: m.panel_height,
                        exclusive_zone: m.panel_height as i32,
                    },
                ],
            },
        )
    }
}

/// An output went away: its instance goes with it.
pub open spec fn on_output_removed(m: BarModel, output: OutputId) -> Outcome {
    retire(m, InstanceKey::Output(output))
}

/// The compositor proposed a size for a surface. A surface that no instance
/// has is passed over. Else the effective size becomes the current size and
/// the instance is configured; if it was not before, a draw follows at once.
pub open spec fn configure(m: BarModel, surface: SurfaceId, width: u32, height: u32) -> Outcome {
    if !has_surface(m.instances, surface) {
        idle(m)
    } else {
        let size = effective_size(width, height);
        let settled = BarModel {
            width: size.0,
            height: size.1,
            instances: m.instances.map_values(acknowledge(surface)),
            ..m
        };
        if awaits_configure(m.instances, surface) {
            draw(settled)
        } else {
            idle(settled)
        }
    }
}

/// The compositor is ready for the next frame of a surface: a draw follows
/// if a configured instance has that surface.
pub open spec fn frame_done(m: BarModel, surface: SurfaceId) -> Outcome {
    if shows_surface(m.instances, surface) {
        draw(m)
    } else {
        idle(m)
    }
}

/// The compositor closed a surface: its instance is removed. When that was
/// the last instance, the exit flag is raised.
pub open spec fn closed(m: BarModel, surface: SurfaceId) -> Outcome {
    let gone = retire(m, InstanceKey::Surface(surface));
    Outcome {
        state: BarModel {
            exit: m.exit || (has_surface(m.instances, surface) && gone.state.instances.len() == 0),
            ..gone.state
        },
        actions: gone.actions,
    }
}

/// What the renderer is told of one raw pointer event: its translation, as
/// input on the event's own surface, if a live instance has that surface.
pub open spec fn delivery(instances: Seq<BarInstance>, event: PointerEvent) -> Seq<Action> {
    if has_surface(instances, event.surface) {
        match translation(event) {
            Some(out) => seq![Action::Deliver { surface: event.surface, event: out }],
            None => Seq::empty(),
        }
    } else {
        Seq::empty()
    }
}

/// What the renderer is told of the first `n` of the given raw events.
pub open spec fn deliveries(instances: Seq<BarInstance>, events: Seq<PointerEvent>, n: int) -> Seq<
    Action,
>
    decreases n,
{
    if n <= 0 {
        Seq::empty()
    } else {
        deliveries(instances, events, n - 1) + delivery(instances, events[n - 1])
    }
}

/// What is known of the pointer after the first `n` of the given raw events:
/// each event on the surface of a live instance is taken in, the others are
/// passed over.
pub open spec fn pointer_after(instances: Seq<BarInstance>, events: Seq<PointerEvent>, n: int) -> PointerState
    decreases n,
{
    if n <= 0 {
        PointerState::idle()
    } else if has_surface(instances, events[n - 1].surface) {
        pointer_after(instances, events, n - 1).after(events[n - 1])
    } else {
        pointer_after(instances, events, n - 1)
    }
}

/// A seat gained a capability: the panel takes the pointer if it has none.
pub open spec fn new_capability(m: BarModel, capability: SeatCapability) -> Outcome {
    if capability == SeatCapability::Pointer && !m.pointer {
        Outcome { state: BarModel { pointer: true, ..m }, actions: seq![Action::AcquirePointer] }
    } else {
        idle(m)
    }
}

/// A seat lost a capability: the panel gives the pointer back if it has it.
pub open spec fn remove_capability(m: BarModel, capability: SeatCapability) -> Outcome {
    if capability == SeatCapability::Pointer && m.pointer {
        Outcome { state: BarModel { pointer: false, ..m }, actions: seq![Action::ReleasePointer] }
    } else {
        idle(m)
    }
}

/// What one event does.
pub open spec fn step(m: BarModel, event: Event) -> Result<Outcome, BarError> {
    match event {
        Event::OutputAdded { output, surface } => on_output_added(m, output, surface),
        Event::OutputUpdated { output } => Ok(idle(m)),
        Event::OutputRemoved { output } => Ok(on_output_removed(m, output)),
        Event::Configured { surface, width, height } => Ok(configure(m, surface, width, height)),
        Event::FrameDone { surface } => Ok(frame_done(m, surface)),
        Event::Closed { surface } => Ok(closed(m, surface)),
        Event::Pointer(event) => Ok(Outcome { state: m, actions: delivery(m.instances, event) }),
        Event::CapabilityAdded(capability) => Ok(new_capability(m, capability)),
        Event::CapabilityRemoved(capability) => Ok(remove_capability(m, capability)),
        Event::GlobalRemoved(capability) => Ok(
            idle(BarModel { globals: m.globals.without(capability), ..m }),
        ),
    }
}

/// What the first `n` of the given events do, one after the other. The first
/// failure ends the run.
pub open spec fn run(m: BarModel, events: Seq<Event>, n: int) -> Result<Outcome, BarError>
    decreases n,
{
    if n <= 0 {
        Ok(idle(m))
    } else {
        match run(m, events, n - 1) {
            Err(e) => Err(e),
            Ok(before) => match step(before.state, events[n - 1]) {
                Err(e) => Err(e),
                Ok(after) => Ok(
                    Outcome { state: after.state, actions: before.actions + after.actions },
                ),
            },
        }
    }
}

} // verus!
