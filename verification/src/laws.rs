//! What holds of the panel whatever happens to it.

use crate::buffer::{
    all_busy, frame_bytes, frame_image, lemma_presentable_bounds, presentable, PoolModel,
    MAX_POOL_BYTES,
};
use crate::input::{
    button_of, LogicalPosition, PointerEvent, PointerEventKind, SurfaceId, WindowEvent,
};
use crate::model::{
    busy_shown, configure, cull, delivery, draw, effective_size, fronts_apart, fronts_held,
    postponed, run, shown_by, step, sweep, BarModel, Outcome, Sweep, FALLBACK_SIZE,
};
use crate::pixel::RgbaPixel;
use crate::protocol::{Action, Event};
use crate::surface::{
    acknowledge, any_configured, awaits_configure, distinct_outputs, has_output, has_surface,
    outputs_of, shows_surface, unshow, BarInstance, InstanceKey, OutputId,
};
use crate::wellformed::{
    lemma_acknowledge, lemma_configure_wf, lemma_cull, lemma_draw_wf, lemma_release_all,
    lemma_run_wf, lemma_step_wf, lemma_sweep,
};
use vstd::prelude::*;
use vstd::seq_lib::seq_to_set_is_finite;
use vstd::set_lib::{lemma_int_range, lemma_len_subset, set_int_range};

verus! {

/// The outputs known after the first `n` of the given events, when `start`
/// were known before them: each output that appears is known from then on,
/// each that goes away is not.
pub open spec fn known_outputs(start: Set<OutputId>, events: Seq<Event>, n: int) -> Set<OutputId>
    decreases n,
{
    if n <= 0 {
        start
    } else {
        let before = known_outputs(start, events, n - 1);
        match events[n - 1] {
            Event::OutputAdded { output, surface } => before.insert(output),
            Event::OutputRemoved { output } => before.remove(output),
            _ => before,
        }
    }
}

/// The event takes no surface away but with its output, and no capability.
pub open spec fn keeps_surfaces(event: Event) -> bool {
    !(event is Closed) && !(event is GlobalRemoved)
}

/// The surface that an action speaks of.
pub open spec fn surface_of(action: Action) -> Option<SurfaceId> {
    match action {
        Action::MapSurface { surface, .. } => Some(surface),
        Action::DestroySurface { surface } => Some(surface),
        Action::Present { surface, .. } => Some(surface),
        Action::AwaitFrame { surface } => Some(surface),
        Action::Deliver { surface, .. } => Some(surface),
        Action::AcquirePointer => None,
        Action::ReleasePointer => None,
    }
}

/// The bytes that the given action of an outcome hands to the compositor, if
/// it presents a frame.
pub open spec fn submitted(outcome: Outcome, at: int) -> Option<Seq<u8>> {
    match outcome.actions[at] {
        Action::Present { slot, .. } => Some(outcome.state.pool.frames[slot as int]),
        _ => None,
    }
}

/// The surfaces of the configured instances among the first `n`, in order.
pub open spec fn audience(instances: Seq<BarInstance>, n: int) -> Seq<SurfaceId>
    decreases n,
{
    if n <= 0 {
        Seq::empty()
    } else if instances[n - 1].configured {
        audience(instances, n - 1).push(instances[n - 1].surface)
    } else {
        audience(instances, n - 1)
    }
}

/// Instances with distinct outputs are as many as their outputs.
pub proof fn lemma_count_outputs(instances: Seq<BarInstance>)
    requires
        distinct_outputs(instances),
    ensures
        outputs_of(instances).finite(),
        outputs_of(instances).len() == instances.len(),
    decreases instances.len(),
{
    if instances.len() == 0 {
        assert(outputs_of(instances) =~= Set::<OutputId>::empty());
    } else {
        let rest = instances.drop_last();
        let last = instances.last();
        assert(distinct_outputs(rest)) by {
            assert forall|i: int, j: int| 0 <= i < j < rest.len() implies (#[trigger] rest[i]).output
                != (#[trigger] rest[j]).output by {
                assert(instances[i].output != instances[j].output);
            }
        }
        lemma_count_outputs(rest);
        assert(!outputs_of(rest).contains(last.output)) by {
            if has_output(rest, last.output) {
                let i = choose|i: int| 0 <= i < rest.len() && (#[trigger] rest[i]).output == last.output;
                assert(instances[i].output != instances[instances.len() - 1].output);
            }
        }
        assert(outputs_of(instances) =~= outputs_of(rest).insert(last.output)) by {
            assert forall|o: OutputId| outputs_of(instances).contains(o) implies outputs_of(
                rest,
            ).insert(last.output).contains(o) by {
                let i = choose|i: int| 0 <= i < instances.len() && (#[trigger] instances[i]).output == o;
                if i < rest.len() {
                    assert(rest[i].output == o);
                }
            }
            assert forall|o: OutputId| outputs_of(rest).insert(last.output).contains(
                o,
            ) implies outputs_of(instances).contains(o) by {
                if o == last.output {
                    assert(instances[instances.len() - 1].output == o);
                } else {
                    let i = choose|i: int| 0 <= i < rest.len() && (#[trigger] rest[i]).output == o;
                    assert(instances[i].output == o);
                }
            }
        }
    }
}

/// Two rows of instances that agree on every output are bound to the same
/// outputs.
pub proof fn lemma_same_outputs(a: Seq<BarInstance>, b: Seq<BarInstance>)
    requires
        a.len() == b.len(),
        forall|i: int| 0 <= i < a.len() ==> (#[trigger] a[i]).output == b[i].output,
    ensures
        outputs_of(a) == outputs_of(b),
{
    assert forall|o: OutputId| outputs_of(a).contains(o) == outputs_of(b).contains(o) by {
        if has_output(a, o) {
            let i = choose|i: int| 0 <= i < a.len() && (#[trigger] a[i]).output == o;
            assert(b[i].output == o);
        }
        if has_output(b, o) {
            let i = choose|i: int| 0 <= i < b.len() && (#[trigger] b[i]).output == o;
            assert(a[i].output == o);
        }
    }
    assert(outputs_of(a) =~= outputs_of(b));
}

/// A draw takes no instance away and adds none, and rebinds none.
pub proof fn lemma_draw_keeps_instances(m: BarModel)
    requires
        m.wf(),
    ensures
        draw(m).state.instances.len() == m.instances.len(),
        forall|i: int|
            0 <= i < m.instances.len() ==> (#[trigger] draw(m).state.instances[i]).output
                == m.instances[i].output && draw(m).state.instances[i].surface
                == m.instances[i].surface && draw(m).state.instances[i].configured
                == m.instances[i].configured,
        draw(m).state.pixels == m.pixels,
        draw(m).state.width == m.width,
        draw(m).state.height == m.height,
        draw(m).state.exit == m.exit,
{
    let pool = m.pool.after_resize(m.width, m.height);
    if pool.width == m.width && pool.height == m.height {
        let same = m.pool.width == m.width && m.pool.height == m.height;
        let instances = if same {
            m.instances
        } else {
            m.instances.map_values(unshow())
        };
        if !same {
            PoolModel::lemma_fresh(m.width, m.height);
        }
        lemma_sweep(pool, instances, m.pixels, instances.len() as int);
        let s = sweep(pool, instances, m.pixels, instances.len() as int);
        assert forall|i: int| 0 <= i < m.instances.len() implies (
        #[trigger] draw(m).state.instances[i]).output == m.instances[i].output && draw(
            m,
        ).state.instances[i].surface == m.instances[i].surface && draw(
            m,
        ).state.instances[i].configured == m.instances[i].configured by {
            assert(s.instances[i].output == instances[i].output);
        }
    }
}

/// What one event does to the outputs that the instances are bound to.
pub proof fn lemma_step_outputs(m: BarModel, event: Event)
    requires
        m.wf(),
    ensures
        step(m, event) matches Ok(after) ==> match event {
            Event::OutputAdded { output, surface } => outputs_of(after.state.instances)
                == outputs_of(m.instances).insert(output),
            Event::OutputRemoved { output } => outputs_of(after.state.instances) == outputs_of(
                m.instances,
            ).remove(output),
            Event::Closed { surface } => outputs_of(after.state.instances).subset_of(
                outputs_of(m.instances),
            ),
            _ => outputs_of(after.state.instances) == outputs_of(m.instances),
        },
        step(m, event) is Err ==> event is OutputAdded && !m.globals.layer_shell,
        step(m, event) matches Ok(after) ==> (after.state.globals.layer_shell
            == m.globals.layer_shell || event is GlobalRemoved),
{
    match event {
        Event::OutputAdded { output, surface } => {
            if m.globals.layer_shell {
                let after = step(m, event)->Ok_0.state.instances;
                if has_output(m.instances, output) {
                    assert(outputs_of(m.instances) =~= outputs_of(m.instances).insert(output));
                } else {
                    assert forall|o: OutputId| outputs_of(after).contains(o) == outputs_of(
                        m.instances,
                    ).insert(output).contains(o) by {
                        if has_output(after, o) {
                            let i = choose|i: int|
                                0 <= i < after.len() && (#[trigger] after[i]).output == o;
                            if i < m.instances.len() {
                                assert(m.instances[i].output == o);
                            }
                        }
                        if o == output {
                            assert(after[m.instances.len() as int].output == o);
                        } else if has_output(m.instances, o) {
                            let i = choose|i: int|
                                0 <= i < m.instances.len() && (#[trigger] m.instances[i]).output
                                    == o;
                            assert(after[i].output == o);
                        }
                    }
                    assert(outputs_of(after) =~= outputs_of(m.instances).insert(output));
                }
            }
        },
        Event::OutputUpdated { output } => {},
        Event::OutputRemoved { output } => {
            let key = InstanceKey::Output(output);
            let n = m.instances.len() as int;
            lemma_cull(m.pool, m.instances, key, n);
            let kept = cull(m.pool, m.instances, key, n).kept;
            assert forall|o: OutputId| outputs_of(kept).contains(o) == outputs_of(
                m.instances,
            ).remove(output).contains(o) by {
                if has_output(kept, o) {
                    let a = choose|a: int| 0 <= a < kept.len() && (#[trigger] kept[a]).output == o;
                    let i = choose|i: int|
                        0 <= i < n && m.instances[i] == kept[a] && !m.instances[i].matches(key);
                    assert(m.instances[i].output == o);
                }
                if o != output && has_output(m.instances, o) {
                    let i = choose|i: int|
                        0 <= i < m.instances.len() && (#[trigger] m.instances[i]).output == o;
                    assert(!m.instances[i].matches(key));
                    assert(kept.contains(m.instances[i]));
                    let a = choose|a: int| 0 <= a < kept.len() && kept[a] == m.instances[i];
                    assert(kept[a].output == o);
                }
            }
            assert(outputs_of(kept) =~= outputs_of(m.instances).remove(output));
        },
        Event::Configured { surface, width, height } => {
            if has_surface(m.instances, surface) {
                lemma_acknowledge(m.instances, surface, m.pool.busy);
                let size = effective_size(width, height);
                let settled = BarModel {
                    width: size.0,
                    height: size.1,
                    instances: m.instances.map_values(acknowledge(surface)),
                    ..m
                };
                lemma_draw_keeps_instances(settled);
                let after = configure(m, surface, width, height).state.instances;
                assert forall|i: int| 0 <= i < m.instances.len() implies (
                #[trigger] m.instances[i]).output == after[i].output by {
                    assert(settled.instances[i].output == m.instances[i].output);
                }
                lemma_same_outputs(m.instances, after);
            }
        },
        Event::FrameDone { surface } => {
            lemma_draw_keeps_instances(m);
            lemma_same_outputs(m.instances, draw(m).state.instances);
        },
        Event::Closed { surface } => {
            let key = InstanceKey::Surface(surface);
            let n = m.instances.len() as int;
            lemma_cull(m.pool, m.instances, key, n);
            let kept = cull(m.pool, m.instances, key, n).kept;
            assert forall|o: OutputId| outputs_of(kept).contains(o) implies outputs_of(
                m.instances,
            ).contains(o) by {
                let a = choose|a: int| 0 <= a < kept.len() && (#[trigger] kept[a]).output == o;
                let i = choose|i: int|
                    0 <= i < n && m.instances[i] == kept[a] && !m.instances[i].matches(key);
                assert(m.instances[i].output == o);
            }
        },
        Event::Pointer(event) => {},
        Event::CapabilityAdded(capability) => {},
        Event::CapabilityRemoved(capability) => {},
        Event::GlobalRemoved(capability) => {},
    }
}

/// The instances mirror the outputs: as long as no surface is closed and the
/// session keeps its capabilities, the instances are bound to exactly the
/// outputs known by then, one instance to each.
pub proof fn law_instances_mirror_outputs(m: BarModel, events: Seq<Event>, n: int)
    requires
        m.wf(),
        m.globals.layer_shell,
        0 <= n <= events.len(),
        forall|i: int| 0 <= i < n ==> keeps_surfaces(#[trigger] events[i]),
    ensures
        run(m, events, n) matches Ok(end) && end.state.globals.layer_shell && outputs_of(
            end.state.instances,
        ) == known_outputs(outputs_of(m.instances), events, n) && known_outputs(
            outputs_of(m.instances),
            events,
            n,
        ).finite() && end.state.instances.len() == known_outputs(
            outputs_of(m.instances),
            events,
            n,
        ).len(),
    decreases n,
{
    if n > 0 {
        law_instances_mirror_outputs(m, events, n - 1);
        lemma_run_wf(m, events, n - 1);
        let before = run(m, events, n - 1)->Ok_0;
        assert(keeps_surfaces(events[n - 1]));
        lemma_step_outputs(before.state, events[n - 1]);
        lemma_step_wf(before.state, events[n - 1]);
        let end = run(m, events, n)->Ok_0;
        lemma_count_outputs(end.state.instances);
    } else {
        lemma_count_outputs(m.instances);
    }
}

/// No instance outlives its output: whatever happens, every instance is
/// bound to an output known by then.
pub proof fn law_no_orphans(m: BarModel, events: Seq<Event>, n: int)
    requires
        m.wf(),
        0 <= n <= events.len(),
    ensures
        run(m, events, n) matches Ok(end) ==> outputs_of(end.state.instances).subset_of(
            known_outputs(outputs_of(m.instances), events, n),
        ),
    decreases n,
{
    if n > 0 {
        law_no_orphans(m, events, n - 1);
        lemma_run_wf(m, events, n - 1);
        match run(m, events, n - 1) {
            Ok(before) => {
                lemma_step_outputs(before.state, events[n - 1]);
            },
            Err(e) => {},
        }
    }
}

/// What holds of the frames of a draw wherever it has come to: every frame
/// presented so far holds `image` and is busy, every frame that was busy
/// when the draw began is as it was, and the actions so far speak of the
/// configured instances in their order.
pub open spec fn sweep_shows(
    s: Sweep,
    pool: PoolModel,
    instances: Seq<BarInstance>,
    image: Seq<u8>,
    n: int,
) -> bool {
    &&& s.actions.len() == audience(instances, n).len()
    &&& forall|a: int|
        0 <= a < s.actions.len() ==> surface_of(#[trigger] s.actions[a]) == Some(
            audience(instances, n)[a],
        )
    &&& forall|a: int|
        0 <= a < s.actions.len() ==> (#[trigger] s.actions[a]) is Present || s.actions[a] is AwaitFrame
    &&& forall|a: int|
        0 <= a < s.actions.len() ==> ((#[trigger] s.actions[a]) matches Action::Present {
            slot,
            ..
        } ==> slot < s.pool.frames.len() && s.pool.busy[slot as int] && s.pool.frames[slot as int]
            == image)
    &&& forall|j: int|
        0 <= j < pool.busy.len() && pool.busy[j] ==> (#[trigger] s.pool.frames[j]) == pool.frames[j]
}

/// What holds of the frames of a draw holds after any number of instances.
pub proof fn lemma_sweep_shows(
    pool: PoolModel,
    instances: Seq<BarInstance>,
    pixels: Seq<RgbaPixel>,
    n: int,
)
    requires
        pool.wf(),
        fronts_held(instances, pool.busy),
        fronts_apart(instances),
        busy_shown(instances, pool.busy),
        0 <= n <= instances.len(),
    ensures
        sweep_shows(
            sweep(pool, instances, pixels, n),
            pool,
            instances,
            frame_image(pixels, pool.frame_len()),
            n,
        ),
    decreases n,
{
    if n > 0 {
        lemma_sweep_shows(pool, instances, pixels, n - 1);
        lemma_sweep(pool, instances, pixels, n - 1);
        lemma_sweep(pool, instances, pixels, n);
        let before = sweep(pool, instances, pixels, n - 1);
        let after = sweep(pool, instances, pixels, n);
        let image = frame_image(pixels, pool.frame_len());
        let instance = before.instances[n - 1];
        assert(instance.configured == instances[n - 1].configured);
        assert(instance.surface == instances[n - 1].surface);
        if instance.configured {
            before.pool.lemma_acquire();
            match before.pool.acquired() {
                Some(k) => {
                    let taken = before.pool.after_acquire();
                    taken.lemma_composite(k, pixels);
                    taken.lemma_slots_bound();
                    assert forall|a: int| 0 <= a < after.actions.len() implies ((
                    #[trigger] after.actions[a]) matches Action::Present { slot, .. } ==> slot
                        < after.pool.frames.len() && after.pool.busy[slot as int]
                        && after.pool.frames[slot as int] == image) by {
                        if a < before.actions.len() {
                            assert(after.actions[a] == before.actions[a]);
                        }
                    }
                    assert forall|a: int| 0 <= a < after.actions.len() implies surface_of(
                        #[trigger] after.actions[a],
                    ) == Some(audience(instances, n)[a]) by {
                        if a < before.actions.len() {
                            assert(after.actions[a] == before.actions[a]);
                        }
                    }
                    assert forall|a: int| 0 <= a < after.actions.len() implies (
                    #[trigger] after.actions[a]) is Present || after.actions[a] is AwaitFrame by {
                        if a < before.actions.len() {
                            assert(after.actions[a] == before.actions[a]);
                        }
                    }
                },
                None => {
                    assert forall|a: int| 0 <= a < after.actions.len() implies ((
                    #[trigger] after.actions[a]) matches Action::Present { slot, .. } ==> slot
                        < after.pool.frames.len() && after.pool.busy[slot as int]
                        && after.pool.frames[slot as int] == image) by {
                        if a < before.actions.len() {
                            assert(after.actions[a] == before.actions[a]);
                        }
                    }
                    assert forall|a: int| 0 <= a < after.actions.len() implies surface_of(
                        #[trigger] after.actions[a],
                    ) == Some(audience(instances, n)[a]) by {
                        if a < before.actions.len() {
                            assert(after.actions[a] == before.actions[a]);
                        }
                    }
                    assert forall|a: int| 0 <= a < after.actions.len() implies (
                    #[trigger] after.actions[a]) is Present || after.actions[a] is AwaitFrame by {
                        if a < before.actions.len() {
                            assert(after.actions[a] == before.actions[a]);
                        }
                    }
                },
            }
        }
    }
}

/// Where no frame can exist, the waiting instances are the configured ones,
/// in their order.
pub proof fn lemma_postponed(instances: Seq<BarInstance>, n: int)
    requires
        0 <= n <= instances.len(),
    ensures
        postponed(instances, n).len() == audience(instances, n).len(),
        forall|a: int|
            0 <= a < postponed(instances, n).len() ==> (#[trigger] postponed(instances, n)[a])
                == (Action::AwaitFrame { surface: audience(instances, n)[a] }),
    decreases n,
{
    if n > 0 {
        lemma_postponed(instances, n - 1);
    }
}

/// Two rows of instances that agree on surfaces and on who is configured
/// have the same audience.
pub proof fn lemma_same_audience(a: Seq<BarInstance>, b: Seq<BarInstance>, n: int)
    requires
        0 <= n <= a.len(),
        a.len() == b.len(),
        forall|i: int|
            0 <= i < a.len() ==> (#[trigger] a[i]).surface == b[i].surface && a[i].configured
                == b[i].configured,
    ensures
        audience(a, n) == audience(b, n),
    decreases n,
{
    if n > 0 {
        lemma_same_audience(a, b, n - 1);
        assert(a[n - 1].surface == b[n - 1].surface);
    }
}

/// What a draw shows: its actions speak of the configured instances in their
/// order, one action each; every frame it presents holds the image of the
/// pixels at the current size; and where the pool had that size already, no
/// frame that an instance showed before the draw was written.
pub proof fn law_draw_shows_pixels(m: BarModel)
    requires
        m.wf(),
    ensures
        draw(m).actions.len() == audience(m.instances, m.instances.len() as int).len(),
        forall|a: int|
            0 <= a < draw(m).actions.len() ==> surface_of(#[trigger] draw(m).actions[a]) == Some(
                audience(m.instances, m.instances.len() as int)[a],
            ),
        forall|a: int|
            0 <= a < draw(m).actions.len() ==> (#[trigger] draw(m).actions[a]) is Present || draw(
                m,
            ).actions[a] is AwaitFrame,
        forall|a: int|
            0 <= a < draw(m).actions.len() && (#[trigger] draw(m).actions[a]) is Present
                ==> submitted(draw(m), a) == Some(
                frame_image(m.pixels, frame_bytes(m.width, m.height)),
            ),
        m.pool.width == m.width && m.pool.height == m.height ==> forall|i: int|
            0 <= i < m.instances.len() ==> ((#[trigger] m.instances[i]).front matches Some(f)
                ==> draw(m).state.pool.frames[f as int] == m.pool.frames[f as int]),
{
    let n = m.instances.len() as int;
    if !any_configured(m.instances) {
        lemma_no_audience(m.instances, n);
    } else {
        let pool = m.pool.after_resize(m.width, m.height);
        if !(pool.width == m.width && pool.height == m.height) {
            lemma_postponed(m.instances, n);
        } else {
            let same = m.pool.width == m.width && m.pool.height == m.height;
            let instances = if same {
                m.instances
            } else {
                m.instances.map_values(unshow())
            };
            if !same {
                PoolModel::lemma_fresh(m.width, m.height);
            }
            lemma_sweep(pool, instances, m.pixels, n);
            lemma_sweep_shows(pool, instances, m.pixels, n);
            lemma_same_audience(m.instances, instances, n);
            let s = sweep(pool, instances, m.pixels, n);
            lemma_release_all(s.pool, s.retired, s.retired.len() as int);
            let image = frame_image(m.pixels, frame_bytes(m.width, m.height));
            assert forall|a: int|
                0 <= a < draw(m).actions.len() && (#[trigger] draw(
                    m,
                ).actions[a]) is Present implies submitted(draw(m), a) == Some(image) by {
                assert(s.actions[a] is Present);
            }
            if same {
                assert forall|i: int| 0 <= i < m.instances.len() implies ((
                #[trigger] m.instances[i]).front matches Some(f) ==> draw(
                    m,
                ).state.pool.frames[f as int] == m.pool.frames[f as int]) by {
                    match m.instances[i].front {
                        Some(f) => {
                            assert(m.pool.busy[f as int]);
                            assert(s.pool.frames[f as int] == m.pool.frames[f as int]);
                        },
                        None => {},
                    }
                }
            }
        }
    }
}

/// Where no instance is configured there is no audience.
pub proof fn lemma_no_audience(instances: Seq<BarInstance>, n: int)
    requires
        0 <= n <= instances.len(),
        !any_configured(instances),
    ensures
        audience(instances, n).len() == 0,
    decreases n,
{
    if n > 0 {
        lemma_no_audience(instances, n - 1);
        assert(!instances[n - 1].configured);
    }
}

/// Drawing twice shows the same: with the pixels and the instances left
/// alone between two draws, the second speaks of the same surfaces in the
/// same order as the first, and every frame that both present holds the same
/// bytes.
pub proof fn law_draw_is_idempotent(m: BarModel)
    requires
        m.wf(),
    ensures
        draw(draw(m).state).actions.len() == draw(m).actions.len(),
        forall|a: int|
            0 <= a < draw(m).actions.len() ==> surface_of(
                #[trigger] draw(draw(m).state).actions[a],
            ) == surface_of(draw(m).actions[a]),
        forall|a: int|
            0 <= a < draw(m).actions.len() && (#[trigger] draw(m).actions[a]) is Present && draw(
                draw(m).state,
            ).actions[a] is Present ==> submitted(draw(draw(m).state), a) == submitted(draw(m), a),
{
    let first = draw(m);
    lemma_draw_wf(m);
    lemma_draw_keeps_instances(m);
    law_draw_shows_pixels(m);
    law_draw_shows_pixels(first.state);
    lemma_same_audience(m.instances, first.state.instances, m.instances.len() as int);
}

/// The slot that an instance shows, or a number that is no slot.
pub open spec fn front_slot(instance: BarInstance) -> int {
    match instance.front {
        Some(f) => f as int,
        None => -1,
    }
}

/// Where every frame is busy, and every busy frame is shown by an instance
/// or retired, there are no more frames than instances and retired frames
/// together.
pub proof fn lemma_busy_count(instances: Seq<BarInstance>, retired: Seq<usize>, busy: Seq<bool>)
    requires
        all_busy(busy),
        busy.len() <= MAX_POOL_BYTES,
        forall|k: int|
            0 <= k < busy.len() && #[trigger] busy[k] ==> shown_by(
                instances,
                k as usize,
            ) || retired.contains(k as usize),
    ensures
        busy.len() <= instances.len() + retired.len(),
{
    let fronts = instances.map_values(|i: BarInstance| front_slot(i));
    let gone = retired.map_values(|r: usize| r as int);
    let all = fronts + gone;
    all.lemma_cardinality_of_set();
    seq_to_set_is_finite(all);
    lemma_int_range(0, busy.len() as int);
    assert forall|k: int| set_int_range(0, busy.len() as int).contains(k) implies all.to_set().contains(
        k,
    ) by {
        assert(busy[k]);
        if shown_by(instances, k as usize) {
            let i = choose|i: int|
                0 <= i < instances.len() && (#[trigger] instances[i]).front == Some(k as usize);
            assert(fronts[i] == k);
            assert(all[i] == k);
        } else {
            let r = choose|r: int| 0 <= r < retired.len() && retired[r] == k as usize;
            assert(gone[r] == k);
            assert(all[fronts.len() + r] == k);
        }
    }
    lemma_len_subset(set_int_range(0, busy.len() as int), all.to_set());
}

/// With room for two frames to each instance a draw never runs out of
/// frames, however far it has come.
pub proof fn lemma_sweep_has_room(
    pool: PoolModel,
    instances: Seq<BarInstance>,
    pixels: Seq<RgbaPixel>,
    n: int,
)
    requires
        pool.wf(),
        fronts_held(instances, pool.busy),
        fronts_apart(instances),
        busy_shown(instances, pool.busy),
        0 <= n <= instances.len(),
        2 * instances.len() * pool.frame_len() <= MAX_POOL_BYTES,
    ensures
        !sweep(pool, instances, pixels, n).missed,
        forall|a: int|
            0 <= a < sweep(pool, instances, pixels, n).actions.len() ==> (#[trigger] sweep(
                pool,
                instances,
                pixels,
                n,
            ).actions[a]) is Present,
    decreases n,
{
    if n > 0 {
        lemma_sweep_has_room(pool, instances, pixels, n - 1);
        lemma_sweep(pool, instances, pixels, n - 1);
        let before = sweep(pool, instances, pixels, n - 1);
        let after = sweep(pool, instances, pixels, n);
        if before.instances[n - 1].configured {
            before.pool.lemma_slots_bound();
            if all_busy(before.pool.busy) {
                lemma_busy_count(before.instances, before.retired, before.pool.busy);
                let slots = before.pool.frames.len() as int;
                let count = instances.len() as int;
                let len = pool.frame_len();
                assert((slots + 1) * len <= 2 * count * len) by (nonlinear_arith)
                    requires
                        slots + 1 <= 2 * count,
                        0 <= len,
                ;
                assert(before.pool.can_grow());
            }
            assert(before.pool.acquired() is Some);
            assert forall|a: int| 0 <= a < after.actions.len() implies (
            #[trigger] after.actions[a]) is Present by {
                if a < before.actions.len() {
                    assert(after.actions[a] == before.actions[a]);
                }
            }
        }
    }
}

/// With room enough nobody waits: where a frame of the current size can
/// exist and the pool can hold two of them to each instance, a draw presents
/// a frame to every configured instance and counts no miss.
pub proof fn law_room_means_frames(m: BarModel)
    requires
        m.wf(),
        presentable(m.width, m.height),
        2 * m.instances.len() * frame_bytes(m.width, m.height) <= MAX_POOL_BYTES,
    ensures
        forall|a: int|
            0 <= a < draw(m).actions.len() ==> (#[trigger] draw(m).actions[a]) is Present,
        any_configured(m.instances) ==> draw(m).state.missed == 0,
{
    if any_configured(m.instances) {
        let pool = m.pool.after_resize(m.width, m.height);
        let same = m.pool.width == m.width && m.pool.height == m.height;
        let instances = if same {
            m.instances
        } else {
            m.instances.map_values(unshow())
        };
        if !same {
            PoolModel::lemma_fresh(m.width, m.height);
        }
        lemma_sweep_has_room(pool, instances, m.pixels, instances.len() as int);
    }
}

/// A proposal without a size leads to the fallback size, and no proposal
/// leads to an empty one: after a configuration of a live surface the
/// current size is the effective size of the proposal, which has no side of
/// zero.
pub proof fn law_configure_never_empty(m: BarModel, surface: SurfaceId, width: u32, height: u32)
    requires
        m.wf(),
        has_surface(m.instances, surface),
    ensures
        configure(m, surface, width, height).state.width == effective_size(width, height).0,
        configure(m, surface, width, height).state.height == effective_size(width, height).1,
        configure(m, surface, 0, 0).state.width == FALLBACK_SIZE,
        configure(m, surface, 0, 0).state.height == FALLBACK_SIZE,
        configure(m, surface, width, height).state.width > 0,
        configure(m, surface, width, height).state.height > 0,
        configure(m, surface, width, height).state.pool.frame_len() > 0,
{
    lemma_settled(m, surface, width, height);
    lemma_settled(m, surface, 0, 0);
    lemma_configure_wf(m, surface, width, height);
    lemma_presentable_bounds(
        configure(m, surface, width, height).state.pool.width,
        configure(m, surface, width, height).state.pool.height,
    );
}

proof fn lemma_settled(m: BarModel, surface: SurfaceId, width: u32, height: u32)
    requires
        m.wf(),
        has_surface(m.instances, surface),
    ensures
        configure(m, surface, width, height).state.width == effective_size(width, height).0,
        configure(m, surface, width, height).state.height == effective_size(width, height).1,
{
    lemma_acknowledge(m.instances, surface, m.pool.busy);
    let size = effective_size(width, height);
    let settled = BarModel {
        width: size.0,
        height: size.1,
        instances: m.instances.map_values(acknowledge(surface)),
        ..m
    };
    lemma_draw_keeps_instances(settled);
}

/// The first configuration of an instance is followed by a draw at once, and
/// a later one by none: a configuration yields actions only where an
/// instance of the surface waited for it, and then the instance is presented
/// or told to wait for the next frame.
pub proof fn law_first_configure_draws(m: BarModel, surface: SurfaceId, width: u32, height: u32)
    requires
        m.wf(),
    ensures
        !awaits_configure(m.instances, surface) ==> configure(
            m,
            surface,
            width,
            height,
        ).actions.len() == 0,
        awaits_configure(m.instances, surface) ==> exists|a: int|
            0 <= a < configure(m, surface, width, height).actions.len() && surface_of(
                #[trigger] configure(m, surface, width, height).actions[a],
            ) == Some(surface),
        forall|i: int|
            0 <= i < m.instances.len() && (#[trigger] m.instances[i]).surface == surface
                ==> configure(m, surface, width, height).state.instances[i].configured,
{
    if has_surface(m.instances, surface) {
        lemma_acknowledge(m.instances, surface, m.pool.busy);
        let size = effective_size(width, height);
        let settled = BarModel {
            width: size.0,
            height: size.1,
            instances: m.instances.map_values(acknowledge(surface)),
            ..m
        };
        lemma_draw_keeps_instances(settled);
        assert forall|i: int|
            0 <= i < m.instances.len() && (#[trigger] m.instances[i]).surface
                == surface implies configure(m, surface, width, height).state.instances[i].configured by {
            assert(settled.instances[i].configured);
        }
        if awaits_configure(m.instances, surface) {
            let i = choose|i: int|
                0 <= i < m.instances.len() && (#[trigger] m.instances[i]).surface == surface
                    && !m.instances[i].configured;
            assert(settled.instances[i].configured && settled.instances[i].surface == surface);
            law_draw_shows_pixels(settled);
            let n = settled.instances.len() as int;
            lemma_audience_has(settled.instances, n, i);
            let a = choose|a: int|
                0 <= a < audience(settled.instances, n).len() && audience(settled.instances, n)[a]
                    == surface;
            assert(surface_of(draw(settled).actions[a]) == Some(surface));
        }
    } else {
        assert(!awaits_configure(m.instances, surface)) by {
            if awaits_configure(m.instances, surface) {
                let i = choose|i: int|
                    0 <= i < m.instances.len() && (#[trigger] m.instances[i]).surface == surface
                        && !m.instances[i].configured;
                assert(m.instances[i].surface == surface);
            }
        }
    }
}

/// A configured instance among the first `n` is in the audience.
pub proof fn lemma_audience_has(instances: Seq<BarInstance>, n: int, i: int)
    requires
        0 <= i < n <= instances.len(),
        instances[i].configured,
    ensures
        exists|a: int|
            0 <= a < audience(instances, n).len() && #[trigger] audience(instances, n)[a]
                == instances[i].surface,
    decreases n,
{
    if i == n - 1 {
        let a = audience(instances, n - 1).len() as int;
        assert(audience(instances, n)[a] == instances[i].surface);
    } else {
        lemma_audience_has(instances, n - 1, i);
        let a = choose|a: int|
            0 <= a < audience(instances, n - 1).len() && #[trigger] audience(instances, n - 1)[a]
                == instances[i].surface;
        assert(audience(instances, n)[a] == instances[i].surface);
    }
}

/// A removal tells the host to destroy surfaces and nothing else.
pub proof fn lemma_cull_destroys(
    pool: PoolModel,
    instances: Seq<BarInstance>,
    key: InstanceKey,
    n: int,
)
    requires
        0 <= n <= instances.len(),
    ensures
        forall|a: int|
            0 <= a < cull(pool, instances, key, n).actions.len() ==> (#[trigger] cull(
                pool,
                instances,
                key,
                n,
            ).actions[a]) is DestroySurface,
    decreases n,
{
    if n > 0 {
        lemma_cull_destroys(pool, instances, key, n - 1);
        let before = cull(pool, instances, key, n - 1);
        let after = cull(pool, instances, key, n);
        assert forall|a: int| 0 <= a < after.actions.len() implies (
        #[trigger] after.actions[a]) is DestroySurface by {
            if a < before.actions.len() {
                assert(after.actions[a] == before.actions[a]);
            }
        }
    }
}

/// An action that shows a frame or puts one off.
pub open spec fn is_draw(action: Action) -> bool {
    action is Present || action is AwaitFrame
}

/// Frames follow the compositor's rhythm: the panel shows a frame, or puts
/// one off, only when the compositor is ready for the next frame of a
/// configured instance, or configures an instance for the first time.
pub proof fn law_draws_follow_frames(m: BarModel, event: Event)
    requires
        m.wf(),
    ensures
        step(m, event) matches Ok(after) ==> forall|a: int|
            0 <= a < after.actions.len() && is_draw(#[trigger] after.actions[a]) ==> match event {
                Event::FrameDone { surface } => shows_surface(m.instances, surface),
                Event::Configured { surface, width, height } => awaits_configure(
                    m.instances,
                    surface,
                ),
                _ => false,
            },
{
    match event {
        Event::OutputRemoved { output } => {
            lemma_cull_destroys(
                m.pool,
                m.instances,
                InstanceKey::Output(output),
                m.instances.len() as int,
            );
        },
        Event::Closed { surface } => {
            lemma_cull_destroys(
                m.pool,
                m.instances,
                InstanceKey::Surface(surface),
                m.instances.len() as int,
            );
        },
        _ => {},
    }
}

/// A press comes back as one press: of a raw press of a known button on a
/// live surface the renderer is told exactly once, as a press of that button
/// at the same position on the same surface; and nothing that the renderer
/// is told of a raw event is on another surface than the event's own.
pub proof fn law_press_round_trip(
    instances: Seq<BarInstance>,
    surface: SurfaceId,
    position: LogicalPosition,
    code: u32,
    other: PointerEvent,
)
    ensures
        has_surface(instances, surface) && button_of(code) is Some ==> delivery(
            instances,
            PointerEvent { surface, position, kind: PointerEventKind::Press { button: code } },
        ) == seq![
            Action::Deliver {
                surface,
                event: WindowEvent::PointerPressed { position, button: button_of(code)->Some_0 },
            },
        ],
        delivery(instances, other).len() <= 1,
        forall|a: int|
            0 <= a < delivery(instances, other).len() ==> surface_of(
                #[trigger] delivery(instances, other)[a],
            ) == Some(other.surface) && has_surface(instances, other.surface),
        other.kind is Axis || other.kind is Enter || other.kind is Leave ==> delivery(
            instances,
            other,
        ).len() == 0,
{
}

} // verus!
