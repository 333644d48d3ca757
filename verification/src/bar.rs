//! The panel itself: it owns the configuration, the pixel memory and the
//! instances, and decides what every event leads to.

use crate::buffer::{lemma_presentable_bounds, BufferPool};
use crate::config::{Anchor, BarConfig};
use crate::input::{translate, PointerEvent, PointerState, SurfaceId};
use crate::model::{
    bumped, closed, configure, cull, deliveries, delivery, draw, frame_done, new_capability,
    on_output_added, on_output_removed, pointer_after, postponed, present_action, release_all,
    remove_capability, retire, run, startup_failure, step, sweep, BarModel, Outcome,
    FALLBACK_SIZE,
};
use crate::pixel::RgbaPixel;
use crate::protocol::{Action, BarError, Capability, Dispatch, Event, Globals, SeatCapability};
use crate::surface::{
    acknowledge, any_configured, awaits_configure, has_output, has_surface, shows_surface, unshow,
    BarInstance, InstanceKey, OutputId,
};
use crate::wellformed::{lemma_acknowledge, lemma_draw_wf, lemma_retire_wf, lemma_step_wf};
use vstd::prelude::*;

verus! {

/// A panel shown on every output.
pub struct Bar {
    config: BarConfig,
    globals: Globals,
    width: u32,
    height: u32,
    software_buffer: Vec<RgbaPixel>,
    pool: BufferPool,
    instances: Vec<BarInstance>,
    pointer: bool,
    exit: bool,
    missed: u32,
}

impl View for Bar {
    type V = BarModel;

    closed spec fn view(&self) -> BarModel {
        BarModel {
            globals: self.globals,
            anchor: self.config.spec_position(),
            panel_width: self.config.spec_width(),
            panel_height: self.config.spec_height(),
            width: self.width,
            height: self.height,
            pixels: self.software_buffer@,
            pool: self.pool@,
            instances: self.instances@,
            pointer: self.pointer,
            exit: self.exit,
            missed: self.missed,
        }
    }
}

fn bump(count: u32) -> (next: u32)
    ensures
        next == bumped(count),
{
    if count < u32::MAX {
        count + 1
    } else {
        count
    }
}

fn find_output(instances: &Vec<BarInstance>, output: OutputId) -> (found: bool)
    ensures
        found == has_output(instances@, output),
{
    let mut i: usize = 0;
    while i < instances.len()
        invariant
            0 <= i <= instances.len(),
            forall|j: int| 0 <= j < i ==> (#[trigger] instances@[j]).output != output,
        decreases instances.len() - i,
    {
        if instances[i].output == output {
            return true;
        }
        i = i + 1;
    }
    false
}

fn find_surface(instances: &Vec<BarInstance>, surface: SurfaceId) -> (found: bool)
    ensures
        found == has_surface(instances@, surface),
{
    let mut i: usize = 0;
    while i < instances.len()
        invariant
            0 <= i <= instances.len(),
            forall|j: int| 0 <= j < i ==> (#[trigger] instances@[j]).surface != surface,
        decreases instances.len() - i,
    {
        if instances[i].surface == surface {
            return true;
        }
        i = i + 1;
    }
    false
}

fn find_surface_in_state(instances: &Vec<BarInstance>, surface: SurfaceId, configured: bool) -> (found:
    bool)
    ensures
        found == if configured {
            shows_surface(instances@, surface)
        } else {
            awaits_configure(instances@, surface)
        },
{
    let mut i: usize = 0;
    while i < instances.len()
        invariant
            0 <= i <= instances.len(),
            forall|j: int|
                0 <= j < i ==> !((#[trigger] instances@[j]).surface == surface
                    && instances@[j].configured == configured),
        decreases instances.len() - i,
    {
        if instances[i].surface == surface && instances[i].configured == configured {
            return true;
        }
        i = i + 1;
    }
    false
}

fn find_configured(instances: &Vec<BarInstance>) -> (found: bool)
    ensures
        found == any_configured(instances@),
{
    let mut i: usize = 0;
    while i < instances.len()
        invariant
            0 <= i <= instances.len(),
            forall|j: int| 0 <= j < i ==> !(#[trigger] instances@[j]).configured,
        decreases instances.len() - i,
    {
        if instances[i].configured {
            return true;
        }
        i = i + 1;
    }
    false
}

fn acknowledge_all(instances: &mut Vec<BarInstance>, surface: SurfaceId)
    ensures
        final(instances)@ == old(instances)@.map_values(acknowledge(surface)),
{
    let n = instances.len();
    let mut i: usize = 0;
    while i < n
        invariant
            0 <= i <= n,
            n == instances@.len(),
            n == old(instances)@.len(),
            forall|j: int| 0 <= j < i ==> instances@[j] == acknowledge(surface)(old(instances)@[j]),
            forall|j: int| i <= j < n ==> instances@[j] == old(instances)@[j],
        decreases n - i,
    {
        let mut instance = instances[i];
        if instance.surface == surface {
            instance.configured = true;
        }
        instances[i] = instance;
        i = i + 1;
    }
    assert(instances@ =~= old(instances)@.map_values(acknowledge(surface)));
}

fn unshow_all(instances: &mut Vec<BarInstance>)
    ensures
        final(instances)@ == old(instances)@.map_values(unshow()),
{
    let n = instances.len();
    let mut i: usize = 0;
    while i < n
        invariant
            0 <= i <= n,
            n == instances@.len(),
            n == old(instances)@.len(),
            forall|j: int| 0 <= j < i ==> instances@[j] == unshow()(old(instances)@[j]),
            forall|j: int| i <= j < n ==> instances@[j] == old(instances)@[j],
        decreases n - i,
    {
        let mut instance = instances[i];
        instance.front = None;
        instances[i] = instance;
        i = i + 1;
    }
    assert(instances@ =~= old(instances)@.map_values(unshow()));
}

fn postpone(instances: &Vec<BarInstance>) -> (actions: Vec<Action>)
    ensures
        actions@ == postponed(instances@, instances@.len() as int),
{
    let mut actions: Vec<Action> = Vec::new();
    let mut i: usize = 0;
    while i < instances.len()
        invariant
            0 <= i <= instances.len(),
            actions@ == postponed(instances@, i as int),
        decreases instances.len() - i,
    {
        if instances[i].configured {
            actions.push(Action::AwaitFrame { surface: instances[i].surface });
        }
        i = i + 1;
    }
    actions
}

fn present(pool: &BufferPool, surface: SurfaceId, slot: usize) -> (action: Action)
    requires
        pool.wf(),
        slot < pool@.frames.len(),
    ensures
        action == present_action(pool@, surface, slot as int),
{
    proof {
        pool.lemma_wf();
        lemma_presentable_bounds(pool@.width, pool@.height);
    }
    let offset: usize = pool.offset(slot);
    let width: u32 = pool.width();
    let height: u32 = pool.height();
    Action::Present {
        surface,
        slot,
        offset: offset as i32,
        width: width as i32,
        height: height as i32,
        stride: (width * 4) as i32,
    }
}

fn sweep_instances(
    pool: &mut BufferPool,
    instances: &mut Vec<BarInstance>,
    pixels: &Vec<RgbaPixel>,
) -> (out: (Vec<Action>, Vec<usize>, bool))
    requires
        old(pool).wf(),
    ensures
        final(pool).wf(),
        ({
            let s = sweep(old(pool)@, old(instances)@, pixels@, old(instances)@.len() as int);
            &&& final(pool)@ == s.pool
            &&& final(instances)@ == s.instances
            &&& out.0@ == s.actions
            &&& out.1@ == s.retired
            &&& out.2 == s.missed
        }),
{
    let n = instances.len();
    let mut actions: Vec<Action> = Vec::new();
    let mut retired: Vec<usize> = Vec::new();
    let mut missed = false;
    let mut i: usize = 0;
    while i < n
        invariant
            0 <= i <= n,
            n == instances@.len(),
            n == old(instances)@.len(),
            pool.wf(),
            ({
                let s = sweep(old(pool)@, old(instances)@, pixels@, i as int);
                &&& pool@ == s.pool
                &&& instances@ == s.instances
                &&& actions@ == s.actions
                &&& retired@ == s.retired
                &&& missed == s.missed
            }),
        decreases n - i,
    {
        let mut instance = instances[i];
        if instance.configured {
            proof {
                pool.lemma_wf();
                pool@.lemma_acquire();
            }
            let ghost before = pool@;
            match pool.acquire() {
                Some(slot) => {
                    pool.composite(slot, pixels);
                    proof {
                        pool.lemma_wf();
                    }
                    actions.push(present(pool, instance.surface, slot));
                    match instance.front {
                        Some(f) => {
                            retired.push(f);
                        },
                        None => {},
                    }
                    instance.front = Some(slot);
                    instances[i] = instance;
                    assert(present_action(pool@, instance.surface, slot as int) == present_action(
                        before,
                        instance.surface,
                        slot as int,
                    ));
                },
                None => {
                    actions.push(Action::AwaitFrame { surface: instance.surface });
                    missed = true;
                },
            }
        }
        i = i + 1;
    }
    (actions, retired, missed)
}

fn release_each(pool: &mut BufferPool, retired: &Vec<usize>)
    requires
        old(pool).wf(),
    ensures
        final(pool).wf(),
        final(pool)@ == release_all(old(pool)@, retired@, retired@.len() as int),
{
    let mut i: usize = 0;
    while i < retired.len()
        invariant
            0 <= i <= retired.len(),
            pool.wf(),
            pool@ == release_all(old(pool)@, retired@, i as int),
        decreases retired.len() - i,
    {
        pool.release(retired[i]);
        i = i + 1;
    }
}

fn cull_instances(pool: &mut BufferPool, instances: &Vec<BarInstance>, key: InstanceKey) -> (out: (
    Vec<BarInstance>,
    Vec<Action>,
))
    requires
        old(pool).wf(),
    ensures
        final(pool).wf(),
        ({
            let c = cull(old(pool)@, instances@, key, instances@.len() as int);
            &&& final(pool)@ == c.pool
            &&& out.0@ == c.kept
            &&& out.1@ == c.actions
        }),
{
    let mut kept: Vec<BarInstance> = Vec::new();
    let mut actions: Vec<Action> = Vec::new();
    let mut i: usize = 0;
    while i < instances.len()
        invariant
            0 <= i <= instances.len(),
            pool.wf(),
            ({
                let c = cull(old(pool)@, instances@, key, i as int);
                &&& pool@ == c.pool
                &&& kept@ == c.kept
                &&& actions@ == c.actions
            }),
        decreases instances.len() - i,
    {
        let instance = instances[i];
        if instance.is_matched_by(key) {
            match instance.front {
                Some(f) => {
                    pool.release(f);
                },
                None => {},
            }
            actions.push(Action::DestroySurface { surface: instance.surface });
        } else {
            kept.push(instance);
        }
        i = i + 1;
    }
    (kept, actions)
}

impl Bar {
    /// The pool is sound and the state is well formed.
    pub closed spec fn wf(&self) -> bool {
        &&& self.pool.wf()
        &&& self@.wf()
    }

    /// The configuration the panel was made with.
    pub closed spec fn spec_config(&self) -> BarConfig {
        self.config
    }

    /// A well-formed panel has a well-formed state.
    pub proof fn lemma_wf(&self)
        requires
            self.wf(),
        ensures
            self@.wf(),
            self@.anchor == self.spec_config().spec_position(),
            self@.panel_width == self.spec_config().spec_width(),
            self@.panel_height == self.spec_config().spec_height(),
    {
    }

    /// Starts a panel on a session that offers `globals`: no instance yet,
    /// every pixel `start_pixel`, one blank frame in the pool.
    ///
    /// Fails where a required capability is missing or no frame of the size
    /// asked for can exist.
    pub fn new(
        globals: Globals,
        start_pixel: RgbaPixel,
        position: Anchor,
        layer_name: &str,
        width: u32,
        height: u32,
    ) -> (made: Result<Bar, BarError>)
        ensures
            match made {
                Ok(bar) => {
                    &&& startup_failure(globals, width, height) is None
                    &&& bar.wf()
                    &&& bar@ == BarModel::initial(globals, position, width, height, start_pixel)
                    &&& bar.spec_config().spec_layer_name() == layer_name@
                },
                Err(e) => startup_failure(globals, width, height) == Some(e),
            },
    {
        if !globals.shared_memory {
            return Err(BarError::CapabilityMissing(Capability::SharedMemory));
        }
        let pool = match BufferPool::new(width, height) {
            Some(pool) => pool,
            None => {
                return Err(BarError::BufferAllocationFailed);
            },
        };
        if !globals.layer_shell {
            return Err(BarError::CapabilityMissing(Capability::LayerShell));
        }
        if !globals.compositor {
            return Err(BarError::CapabilityMissing(Capability::Compositor));
        }
        proof {
            lemma_presentable_bounds(width, height);
            pool.lemma_wf();
        }
        let cells: usize = pool.frame_len() / 4;
        assert(cells == width as int * height as int);
        let software_buffer: Vec<RgbaPixel> = vec![start_pixel; cells];
        let bar = Bar {
            config: BarConfig::new(position, layer_name, width, height),
            globals,
            width,
            height,
            software_buffer,
            pool,
            instances: Vec::new(),
            pointer: false,
            exit: false,
            missed: 0,
        };
        proof {
            assert(bar@.pixels =~= BarModel::initial(
                globals,
                position,
                width,
                height,
                start_pixel,
            ).pixels);
            assert(bar@.instances =~= Seq::<BarInstance>::empty());
        }
        Ok(bar)
    }

    /// An output appeared, and the host made `surface` for it.
    pub fn on_output_added(&mut self, output: OutputId, surface: SurfaceId) -> (out: Result<
        Vec<Action>,
        BarError,
    >)
        requires
            old(self).wf(),
        ensures
            final(self).wf(),
            final(self).spec_config() == old(self).spec_config(),
            match out {
                Ok(actions) => on_output_added(old(self)@, output, surface) == Ok::<
                    Outcome,
                    BarError,
                >(Outcome { state: final(self)@, actions: actions@ }),
                Err(e) => on_output_added(old(self)@, output, surface) == Err::<Outcome, BarError>(
                    e,
                ) && final(self)@ == old(self)@,
            },
    {
        if !self.globals.layer_shell {
            return Err(BarError::CapabilityMissing(Capability::LayerShell));
        }
        if find_output(&self.instances, output) {
            return Ok(Vec::new());
        }
        proof {
            lemma_presentable_bounds(self.config.spec_width(), self.config.spec_height());
            lemma_step_wf(old(self)@, Event::OutputAdded { output, surface });
        }
        self.instances.push(BarInstance::new(surface, output));
        let mut actions: Vec<Action> = Vec::new();
        actions.push(
            Action::MapSurface {
                surface,
                output,
                anchor: self.config.position(),
                width: self.config.width(),
                height: self.config.height(),
                exclusive_zone: self.config.height() as i32,
            },
        );
        proof {
            assert(actions@ =~= on_output_added(old(self)@, output, surface)->Ok_0.actions);
        }
        Ok(actions)
    }

    /// Something about an output changed. Nothing follows from it.
    pub fn on_output_updated(&mut self, output: OutputId)
        ensures
            *final(self) == *old(self),
    {
    }

    /// An output went away.
    pub fn on_output_removed(&mut self, output: OutputId) -> (actions: Vec<Action>)
        requires
            old(self).wf(),
        ensures
            final(self).wf(),
            final(self).spec_config() == old(self).spec_config(),
            final(self)@ == on_output_removed(old(self)@, output).state,
            actions@ == on_output_removed(old(self)@, output).actions,
    {
        self.retire(InstanceKey::Output(output))
    }

    fn retire(&mut self, key: InstanceKey) -> (actions: Vec<Action>)
        requires
            old(self).wf(),
        ensures
            final(self).wf(),
            final(self).spec_config() == old(self).spec_config(),
            final(self)@ == retire(old(self)@, key).state,
            actions@ == retire(old(self)@, key).actions,
    {
        proof {
            lemma_retire_wf(old(self)@, key);
        }
        let (kept, actions) = cull_instances(&mut self.pool, &self.instances, key);
        self.instances = kept;
        actions
    }

    /// Draws for every configured instance.
    pub fn draw(&mut self) -> (actions: Vec<Action>)
        requires
            old(self).wf(),
        ensures
            final(self).wf(),
            final(self).spec_config() == old(self).spec_config(),
            final(self)@ == draw(old(self)@).state,
            actions@ == draw(old(self)@).actions,
    {
        proof {
            lemma_draw_wf(old(self)@);
        }
        if !find_configured(&self.instances) {
            return Vec::new();
        }
        let same = self.pool.width() == self.width && self.pool.height() == self.height;
        let fitted = self.pool.resize(self.width, self.height);
        if !fitted {
            self.missed = bump(self.missed);
            return postpone(&self.instances);
        }
        if !same {
            unshow_all(&mut self.instances);
        }
        let (actions, retired, missed) = sweep_instances(
            &mut self.pool,
            &mut self.instances,
            &self.software_buffer,
        );
        release_each(&mut self.pool, &retired);
        self.missed = if missed {
            bump(self.missed)
        } else {
            0
        };
        actions
    }

    /// The compositor proposed `new_size`, width first, for a surface.
    pub fn configure(&mut self, surface: SurfaceId, new_size: (u32, u32)) -> (actions: Vec<Action>)
        requires
            old(self).wf(),
        ensures
            final(self).wf(),
            final(self).spec_config() == old(self).spec_config(),
            final(self)@ == configure(old(self)@, surface, new_size.0, new_size.1).state,
            actions@ == configure(old(self)@, surface, new_size.0, new_size.1).actions,
    {
        if !find_surface(&self.instances, surface) {
            return Vec::new();
        }
        let first = find_surface_in_state(&self.instances, surface, false);
        if new_size.0 == 0 || new_size.1 == 0 {
            self.width = FALLBACK_SIZE;
            self.height = FALLBACK_SIZE;
        } else {
            self.width = new_size.0;
            self.height = new_size.1;
        }
        proof {
            lemma_acknowledge(old(self)@.instances, surface, old(self)@.pool.busy);
        }
        acknowledge_all(&mut self.instances, surface);
        if first {
            self.draw()
        } else {
            Vec::new()
        }
    }

    /// The compositor is ready for the next frame of a surface.
    pub fn frame_done(&mut self, surface: SurfaceId) -> (actions: Vec<Action>)
        requires
            old(self).wf(),
        ensures
            final(self).wf(),
            final(self).spec_config() == old(self).spec_config(),
            final(self)@ == frame_done(old(self)@, surface).state,
            actions@ == frame_done(old(self)@, surface).actions,
    {
        if find_surface_in_state(&self.instances, surface, true) {
            self.draw()
        } else {
            Vec::new()
        }
    }

    /// The compositor closed a surface.
    pub fn closed(&mut self, surface: SurfaceId) -> (actions: Vec<Action>)
        requires
            old(self).wf(),
        ensures
            final(self).wf(),
            final(self).spec_config() == old(self).spec_config(),
            final(self)@ == closed(old(self)@, surface).state,
            actions@ == closed(old(self)@, surface).actions,
    {
        let known = find_surface(&self.instances, surface);
        let actions = self.retire(InstanceKey::Surface(surface));
        if known && self.instances.len() == 0 {
            self.exit = true;
        }
        actions
    }

    /// What the renderer is told of a batch of raw pointer events.
    pub fn pointer_frame(&self, events: &Vec<PointerEvent>) -> (actions: Vec<Action>)
        ensures
            actions@ == deliveries(self@.instances, events@, events@.len() as int),
    {
        let mut actions: Vec<Action> = Vec::new();
        let mut i: usize = 0;
        while i < events.len()
            invariant
                0 <= i <= events.len(),
                actions@ == deliveries(self@.instances, events@, i as int),
            decreases events.len() - i,
        {
            let mut one = self.pointer_event(&events[i]);
            actions.append(&mut one);
            i = i + 1;
        }
        actions
    }

    /// What is known of the pointer after a batch of raw pointer events.
    pub fn pointer_state(&self, events: &Vec<PointerEvent>) -> (state: PointerState)
        ensures
            state == pointer_after(self@.instances, events@, events@.len() as int),
    {
        let mut state = PointerState::new();
        let mut i: usize = 0;
        while i < events.len()
            invariant
                0 <= i <= events.len(),
                state == pointer_after(self@.instances, events@, i as int),
            decreases events.len() - i,
        {
            if find_surface(&self.instances, events[i].surface) {
                state.observe(&events[i]);
            }
            i = i + 1;
        }
        state
    }

    /// What the renderer is told of one raw pointer event.
    pub fn pointer_event(&self, event: &PointerEvent) -> (actions: Vec<Action>)
        ensures
            actions@ == delivery(self@.instances, *event),
    {
        let mut actions: Vec<Action> = Vec::new();
        if find_surface(&self.instances, event.surface) {
            match translate(event) {
                Some(out) => {
                    actions.push(Action::Deliver { surface: event.surface, event: out });
                    assert(actions@ =~= delivery(self@.instances, *event));
                },
                None => {},
            }
        }
        actions
    }

    /// A seat gained a capability.
    pub fn new_capability(&mut self, capability: SeatCapability) -> (actions: Vec<Action>)
        ensures
            old(self).wf() ==> final(self).wf(),
            final(self).spec_config() == old(self).spec_config(),
            final(self)@ == new_capability(old(self)@, capability).state,
            actions@ == new_capability(old(self)@, capability).actions,
    {
        let mut actions: Vec<Action> = Vec::new();
        match capability {
            SeatCapability::Pointer => {
                if !self.pointer {
                    self.pointer = true;
                    actions.push(Action::AcquirePointer);
                    assert(actions@ =~= seq![Action::AcquirePointer]);
                }
            },
            _ => {},
        }
        actions
    }

    /// A seat lost a capability.
    pub fn remove_capability(&mut self, capability: SeatCapability) -> (actions: Vec<Action>)
        ensures
            old(self).wf() ==> final(self).wf(),
            final(self).spec_config() == old(self).spec_config(),
            final(self)@ == remove_capability(old(self)@, capability).state,
            actions@ == remove_capability(old(self)@, capability).actions,
    {
        let mut actions: Vec<Action> = Vec::new();
        match capability {
            SeatCapability::Pointer => {
                if self.pointer {
                    self.pointer = false;
                    actions.push(Action::ReleasePointer);
                    assert(actions@ =~= seq![Action::ReleasePointer]);
                }
            },
            _ => {},
        }
        actions
    }

    /// Takes one event in and tells the host what to do. On a failure the
    /// state stays as it was.
    pub fn handle(&mut self, event: Event) -> (out: Result<Vec<Action>, BarError>)
        requires
            old(self).wf(),
        ensures
            final(self).wf(),
            final(self).spec_config() == old(self).spec_config(),
            match out {
                Ok(actions) => step(old(self)@, event) == Ok::<Outcome, BarError>(
                    Outcome { state: final(self)@, actions: actions@ },
                ),
                Err(e) => step(old(self)@, event) == Err::<Outcome, BarError>(e) && final(self)@
                    == old(self)@,
            },
    {
        match event {
            Event::OutputAdded { output, surface } => self.on_output_added(output, surface),
            Event::OutputUpdated { output } => {
                self.on_output_updated(output);
                Ok(Vec::new())
            },
            Event::OutputRemoved { output } => Ok(self.on_output_removed(output)),
            Event::Configured { surface, width, height } => Ok(
                self.configure(surface, (width, height)),
            ),
            Event::FrameDone { surface } => Ok(self.frame_done(surface)),
            Event::Closed { surface } => Ok(self.closed(surface)),
            Event::Pointer(event) => Ok(self.pointer_event(&event)),
            Event::CapabilityAdded(capability) => Ok(self.new_capability(capability)),
            Event::CapabilityRemoved(capability) => Ok(self.remove_capability(capability)),
            Event::GlobalRemoved(capability) => {
                self.globals.remove(capability);
                Ok(Vec::new())
            },
        }
    }

    /// Takes in what the host got from waiting on the connection: every event
    /// of the batch in turn. A lost connection, and the first event that
    /// fails, end it with that failure.
    pub fn dispatch_and_draw(&mut self, dispatch: &Dispatch) -> (out: Result<Vec<Action>, BarError>)
        requires
            old(self).wf(),
        ensures
            final(self).wf(),
            final(self).spec_config() == old(self).spec_config(),
            match *dispatch {
                Dispatch::Lost => out == Err::<Vec<Action>, BarError>(BarError::ConnectionLost)
                    && final(self)@ == old(self)@,
                Dispatch::Batch(events) => match run(old(self)@, events@, events@.len() as int) {
                    Ok(end) => out matches Ok(actions) && actions@ == end.actions && final(self)@
                        == end.state,
                    Err(e) => out == Err::<Vec<Action>, BarError>(e),
                },
            },
    {
        match dispatch {
            Dispatch::Lost => Err(BarError::ConnectionLost),
            Dispatch::Batch(events) => self.handle_all(events),
        }
    }

    /// Takes the given events in, one after the other, up to the first that
    /// fails.
    pub fn handle_all(&mut self, events: &Vec<Event>) -> (out: Result<Vec<Action>, BarError>)
        requires
            old(self).wf(),
        ensures
            final(self).wf(),
            final(self).spec_config() == old(self).spec_config(),
            match run(old(self)@, events@, events@.len() as int) {
                Ok(end) => out matches Ok(actions) && actions@ == end.actions && final(self)@
                    == end.state,
                Err(e) => out == Err::<Vec<Action>, BarError>(e),
            },
    {
        let mut actions: Vec<Action> = Vec::new();
        let mut i: usize = 0;
        while i < events.len()
            invariant
                0 <= i <= events.len(),
                self.wf(),
                self.spec_config() == old(self).spec_config(),
                run(old(self)@, events@, i as int) == Ok::<Outcome, BarError>(
                    Outcome { state: self@, actions: actions@ },
                ),
            decreases events.len() - i,
        {
            let ghost earlier = actions@;
            let handled = self.handle(events[i]);
            match handled {
                Ok(mut more) => {
                    let ghost added = more@;
                    actions.append(&mut more);
                    proof {
                        lemma_run_next(old(self)@, events@, i as int + 1);
                        assert(actions@ == earlier + added);
                    }
                },
                Err(e) => {
                    proof {
                        lemma_run_next(old(self)@, events@, i as int + 1);
                        lemma_run_fails(old(self)@, events@, i as int + 1, events@.len() as int);
                    }
                    return Err(e);
                },
            }
            i = i + 1;
        }
        Ok(actions)
    }

    /// The configuration the panel was made with.
    pub fn config(&self) -> (config: &BarConfig)
        ensures
            *config == self.spec_config(),
    {
        &self.config
    }

    /// Whether the last surface was closed. The host decides what to make of
    /// it.
    pub fn exit(&self) -> (exit: bool)
        ensures
            exit == self@.exit,
    {
        self.exit
    }

    /// The size the compositor last settled on, width first.
    pub fn size(&self) -> (size: (u32, u32))
        ensures
            size == (self@.width, self@.height),
    {
        (self.width, self.height)
    }

    /// How many draws in a row left a configured instance without a frame.
    pub fn missed_draws(&self) -> (missed: u32)
        ensures
            missed == self@.missed,
    {
        self.missed
    }

    /// Whether the panel holds the seat's pointer.
    pub fn has_pointer(&self) -> (held: bool)
        ensures
            held == self@.pointer,
    {
        self.pointer
    }

    /// The live instances, oldest first.
    pub fn instances(&self) -> (instances: &Vec<BarInstance>)
        ensures
            instances@ == self@.instances,
    {
        &self.instances
    }

    /// The pixel memory.
    pub fn pool(&self) -> (pool: &BufferPool)
        ensures
            pool@ == self@.pool,
            self.wf() ==> pool.wf(),
    {
        &self.pool
    }

    /// The renderer's pixels.
    pub fn software_buffer(&self) -> (pixels: &Vec<RgbaPixel>)
        ensures
            pixels@ == self@.pixels,
    {
        &self.software_buffer
    }

    /// The renderer's pixels, for the renderer to write before a draw.
    pub fn software_buffer_mut(&mut self) -> (pixels: &mut Vec<RgbaPixel>)
        ensures
            pixels@ == old(self)@.pixels,
            final(self)@ == (BarModel { pixels: final(pixels)@, ..old(self)@ }),
            final(self).spec_config() == old(self).spec_config(),
            old(self).wf() ==> final(self).wf(),
    {
        &mut self.software_buffer
    }
}

/// A run is the run up to its last event, followed by that event.
pub proof fn lemma_run_next(m: BarModel, events: Seq<Event>, n: int)
    requires
        0 < n,
    ensures
        run(m, events, n) == match run(m, events, n - 1) {
            Err(e) => Err::<Outcome, BarError>(e),
            Ok(before) => match step(before.state, events[n - 1]) {
                Err(e) => Err(e),
                Ok(after) => Ok(
                    Outcome { state: after.state, actions: before.actions + after.actions },
                ),
            },
        },
{
}

/// A run that has failed stays failed, with the same failure.
pub proof fn lemma_run_fails(m: BarModel, events: Seq<Event>, n: int, later: int)
    requires
        0 <= n <= later,
        run(m, events, n) is Err,
    ensures
        run(m, events, later) == run(m, events, n),
    decreases later - n,
{
    if n < later {
        lemma_run_fails(m, events, n, later - 1);
    }
}

} // verus!
