//! Every step of the panel leaves a well-formed state behind.

use crate::buffer::PoolModel;
use crate::input::SurfaceId;
use crate::model::{
    busy_shown, configure, cull, draw, effective_size, fronts_apart, fronts_held, release_all,
    retire, run, shown_by, step, sweep, sweep_one, BarModel, Cull, Sweep,
};
use crate::pixel::RgbaPixel;
use crate::protocol::Event;
use crate::surface::{
    acknowledge, distinct_outputs, has_output, unshow, BarInstance, InstanceKey,
};
use vstd::prelude::*;

verus! {

/// The frame is none that an instance shows.
pub open spec fn unshown_by(instances: Seq<BarInstance>, slot: usize) -> bool {
    forall|i: int| 0 <= i < instances.len() ==> (#[trigger] instances[i]).front != Some(slot)
}

/// What holds of a draw wherever it has come to, from `instances` on a pool
/// whose busy marks were `busy`: the instances are the same but for what
/// they show; what they show is busy and theirs alone; the retired frames
/// are busy and shown by nobody; and every busy frame is shown or retired.
pub open spec fn sweep_inv(s: Sweep, instances: Seq<BarInstance>, busy: Seq<bool>) -> bool {
    &&& s.pool.wf()
    &&& s.instances.len() == instances.len()
    &&& busy.len() <= s.pool.busy.len()
    &&& forall|j: int| 0 <= j < busy.len() && busy[j] ==> s.pool.busy[j]
    &&& forall|i: int|
        0 <= i < instances.len() ==> (#[trigger] s.instances[i]).surface == instances[i].surface
            && s.instances[i].output == instances[i].output && s.instances[i].configured
            == instances[i].configured
    &&& fronts_held(s.instances, s.pool.busy)
    &&& fronts_apart(s.instances)
    &&& forall|r: int|
        0 <= r < s.retired.len() ==> (#[trigger] s.retired[r]) < s.pool.busy.len()
            && s.pool.busy[s.retired[r] as int] && unshown_by(s.instances, s.retired[r])
    &&& forall|k: int|
        0 <= k < s.pool.busy.len() && #[trigger] s.pool.busy[k] ==> shown_by(
            s.instances,
            k as usize,
        ) || s.retired.contains(k as usize)
}

/// One more instance drawn keeps what holds of a draw.
pub proof fn lemma_sweep_one(
    s: Sweep,
    i: int,
    pixels: Seq<RgbaPixel>,
    instances: Seq<BarInstance>,
    busy: Seq<bool>,
)
    requires
        sweep_inv(s, instances, busy),
        0 <= i < instances.len(),
    ensures
        sweep_inv(sweep_one(s, i, pixels), instances, busy),
        sweep_one(s, i, pixels).pool.width == s.pool.width,
        sweep_one(s, i, pixels).pool.height == s.pool.height,
{
    let next = sweep_one(s, i, pixels);
    let instance = s.instances[i];
    if instance.configured {
        s.pool.lemma_acquire();
        match s.pool.acquired() {
            Some(k) => {
                let taken = s.pool.after_acquire();
                taken.lemma_composite(k, pixels);
                taken.lemma_slots_bound();
                assert(next.instances[i].front == Some(k as usize));
                assert forall|a: int|
                    0 <= a < next.instances.len() && (
                    #[trigger] next.instances[a]).front is Some implies next.instances[a].front->Some_0
                    < next.pool.busy.len()
                    && next.pool.busy[next.instances[a].front->Some_0 as int] by {
                    if a != i {
                        assert(next.instances[a] == s.instances[a]);
                    }
                }
                assert forall|a: int, b: int|
                    0 <= a < b < next.instances.len() && (
                    #[trigger] next.instances[a]).front is Some implies next.instances[a].front != (
                #[trigger] next.instances[b]).front by {
                    if a != i {
                        assert(next.instances[a] == s.instances[a]);
                    }
                    if b != i {
                        assert(next.instances[b] == s.instances[b]);
                    }
                }
                assert forall|r: int| 0 <= r < next.retired.len() implies (
                #[trigger] next.retired[r]) < next.pool.busy.len()
                    && next.pool.busy[next.retired[r] as int] && unshown_by(
                    next.instances,
                    next.retired[r],
                ) by {
                    let gone = next.retired[r];
                    if r < s.retired.len() {
                        assert(gone == s.retired[r]);
                        assert(unshown_by(s.instances, gone));
                    } else {
                        assert(instance.front == Some(gone));
                    }
                    assert forall|a: int| 0 <= a < next.instances.len() implies (
                    #[trigger] next.instances[a]).front != Some(gone) by {
                        if a != i {
                            assert(next.instances[a] == s.instances[a]);
                            if r >= s.retired.len() {
                                if a < i {
                                    assert(s.instances[a].front is Some ==> s.instances[a].front
                                        != s.instances[i].front);
                                } else {
                                    assert(s.instances[i].front is Some ==> s.instances[i].front
                                        != s.instances[a].front);
                                }
                            }
                        }
                    }
                }
                assert forall|j: int|
                    0 <= j < next.pool.busy.len()
                        && #[trigger] next.pool.busy[j] implies shown_by(next.instances, j as usize)
                    || next.retired.contains(j as usize) by {
                    if j != k {
                        assert(s.pool.busy[j]);
                        if shown_by(s.instances, j as usize) {
                            let a = choose|a: int|
                                0 <= a < s.instances.len() && (#[trigger] s.instances[a]).front
                                    == Some(j as usize);
                            if a == i {
                                assert(next.retired[s.retired.len() as int] == j as usize);
                            } else {
                                assert(next.instances[a].front == Some(j as usize));
                            }
                        } else {
                            let r = choose|r: int|
                                0 <= r < s.retired.len() && s.retired[r] == j as usize;
                            assert(next.retired[r] == j as usize);
                        }
                    }
                }
            },
            None => {},
        }
    }
}

/// What holds of a draw holds after any number of instances.
pub proof fn lemma_sweep(pool: PoolModel, instances: Seq<BarInstance>, pixels: Seq<RgbaPixel>, n: int)
    requires
        pool.wf(),
        fronts_held(instances, pool.busy),
        fronts_apart(instances),
        busy_shown(instances, pool.busy),
        0 <= n <= instances.len(),
    ensures
        sweep_inv(sweep(pool, instances, pixels, n), instances, pool.busy),
        sweep(pool, instances, pixels, n).pool.width == pool.width,
        sweep(pool, instances, pixels, n).pool.height == pool.height,
        sweep(pool, instances, pixels, n).retired.len() <= n,
    decreases n,
{
    if n > 0 {
        lemma_sweep(pool, instances, pixels, n - 1);
        lemma_sweep_one(sweep(pool, instances, pixels, n - 1), n - 1, pixels, instances, pool.busy);
    }
}

/// Releasing frames leaves the bytes alone and frees those frames only.
pub proof fn lemma_release_all(pool: PoolModel, retired: Seq<usize>, n: int)
    requires
        pool.wf(),
        0 <= n <= retired.len(),
    ensures
        release_all(pool, retired, n).wf(),
        release_all(pool, retired, n).frames == pool.frames,
        release_all(pool, retired, n).width == pool.width,
        release_all(pool, retired, n).height == pool.height,
        release_all(pool, retired, n).busy.len() == pool.busy.len(),
        forall|j: int|
            0 <= j < pool.busy.len() ==> (#[trigger] release_all(pool, retired, n).busy[j] <==> pool.busy[j]
                && forall|r: int| 0 <= r < n ==> retired[r] != j),
    decreases n,
{
    if n > 0 {
        lemma_release_all(pool, retired, n - 1);
        let before = release_all(pool, retired, n - 1);
        before.lemma_release(retired[n - 1] as int);
        let after = release_all(pool, retired, n);
        assert forall|j: int| 0 <= j < pool.busy.len() implies (#[trigger] after.busy[j]
            <==> pool.busy[j] && forall|r: int| 0 <= r < n ==> retired[r] != j) by {
            if after.busy[j] {
                assert(before.busy[j] && j != retired[n - 1]);
            }
            if pool.busy[j] && (forall|r: int| 0 <= r < n ==> retired[r] != j) {
                assert(retired[n - 1] != j);
                assert(forall|r: int| 0 <= r < n - 1 ==> retired[r] != j);
            }
        }
    }
}

/// The end of a draw, when the retired frames are released, leaves what the
/// instances show busy and nothing else.
pub proof fn lemma_sweep_end(s: Sweep, instances: Seq<BarInstance>, busy: Seq<bool>)
    requires
        sweep_inv(s, instances, busy),
    ensures
        release_all(s.pool, s.retired, s.retired.len() as int).wf(),
        fronts_held(s.instances, release_all(s.pool, s.retired, s.retired.len() as int).busy),
        busy_shown(s.instances, release_all(s.pool, s.retired, s.retired.len() as int).busy),
{
    let n = s.retired.len() as int;
    lemma_release_all(s.pool, s.retired, n);
    s.pool.lemma_slots_bound();
    let end = release_all(s.pool, s.retired, n);
    assert forall|i: int|
        0 <= i < s.instances.len() && (
        #[trigger] s.instances[i]).front is Some implies s.instances[i].front->Some_0
        < end.busy.len() && end.busy[s.instances[i].front->Some_0 as int] by {
        let f = s.instances[i].front->Some_0;
        assert forall|r: int| 0 <= r < n implies s.retired[r] != f by {
            assert(unshown_by(s.instances, s.retired[r]));
        }
    }
    assert forall|k: int| 0 <= k < end.busy.len() && #[trigger] end.busy[k] implies shown_by(
        s.instances,
        k as usize,
    ) by {
        assert(s.pool.busy[k]);
        if s.retired.contains(k as usize) {
            let r = choose|r: int| 0 <= r < s.retired.len() && s.retired[r] == k as usize;
            assert(s.retired[r] != k);
        }
    }
}

/// A draw leaves a well-formed state behind.
pub proof fn lemma_draw_wf(m: BarModel)
    requires
        m.wf(),
    ensures
        draw(m).state.wf(),
{
    let pool = m.pool.after_resize(m.width, m.height);
    if pool.width == m.width && pool.height == m.height {
        let same = m.pool.width == m.width && m.pool.height == m.height;
        let instances = if same {
            m.instances
        } else {
            m.instances.map_values(unshow())
        };
        if !same {
            PoolModel::lemma_fresh(m.width, m.height);
        }
        let n = instances.len() as int;
        lemma_sweep(pool, instances, m.pixels, n);
        let s = sweep(pool, instances, m.pixels, n);
        lemma_sweep_end(s, instances, pool.busy);
        assert(distinct_outputs(s.instances)) by {
            assert forall|i: int, j: int| 0 <= i < j < s.instances.len() implies (
            #[trigger] s.instances[i]).output != (#[trigger] s.instances[j]).output by {
                assert(s.instances[i].output == instances[i].output);
                assert(s.instances[j].output == instances[j].output);
                assert(m.instances[i].output != m.instances[j].output);
            }
        }
    }
}

/// What holds of a removal wherever it has come to: the pool has lost no
/// frame and no byte; the instances kept are those among the first `n` that
/// the key does not pick, each once; and the frames that are busy no more
/// are those that the instances picked among the first `n` showed.
pub open spec fn cull_inv(
    c: Cull,
    pool: PoolModel,
    instances: Seq<BarInstance>,
    key: InstanceKey,
    n: int,
) -> bool {
    &&& c.pool.wf()
    &&& c.pool.frames == pool.frames
    &&& c.pool.width == pool.width
    &&& c.pool.height == pool.height
    &&& c.pool.busy.len() == pool.busy.len()
    &&& c.kept.len() <= n
    &&& forall|a: int|
        0 <= a < c.kept.len() ==> exists|i: int|
            0 <= i < n && instances[i] == #[trigger] c.kept[a] && !instances[i].matches(key)
    &&& forall|i: int|
        0 <= i < n && !(#[trigger] instances[i]).matches(key) ==> c.kept.contains(instances[i])
    &&& forall|j: int|
        0 <= j < pool.busy.len() && pool.busy[j] && !c.pool.busy[j] ==> exists|i: int|
            0 <= i < n && (#[trigger] instances[i]).matches(key) && instances[i].front == Some(
                j as usize,
            )
    &&& forall|j: int| 0 <= j < pool.busy.len() && c.pool.busy[j] ==> pool.busy[j]
    &&& forall|i: int|
        0 <= i < n && (#[trigger] instances[i]).matches(key) && instances[i].front is Some
            && instances[i].front->Some_0 < pool.busy.len()
            ==> !c.pool.busy[instances[i].front->Some_0 as int]
    &&& distinct_outputs(c.kept)
    &&& fronts_apart(c.kept)
}

/// What holds of a removal holds after any number of instances.
pub proof fn lemma_cull(pool: PoolModel, instances: Seq<BarInstance>, key: InstanceKey, n: int)
    requires
        pool.wf(),
        distinct_outputs(instances),
        fronts_apart(instances),
        0 <= n <= instances.len(),
    ensures
        cull_inv(cull(pool, instances, key, n), pool, instances, key, n),
    decreases n,
{
    if n > 0 {
        lemma_cull(pool, instances, key, n - 1);
        let before = cull(pool, instances, key, n - 1);
        let after = cull(pool, instances, key, n);
        let instance = instances[n - 1];
        if instance.matches(key) {
            match instance.front {
                Some(f) => {
                    before.pool.lemma_release(f as int);
                },
                None => {},
            }
            assert forall|a: int| 0 <= a < after.kept.len() implies exists|i: int|
                0 <= i < n && instances[i] == #[trigger] after.kept[a] && !instances[i].matches(
                    key,
                ) by {
                let i = choose|i: int|
                    0 <= i < n - 1 && instances[i] == before.kept[a] && !instances[i].matches(key);
                assert(0 <= i < n && instances[i] == after.kept[a]);
            }
            assert forall|j: int|
                0 <= j < pool.busy.len() && pool.busy[j]
                    && !after.pool.busy[j] implies exists|i: int|
                0 <= i < n && (#[trigger] instances[i]).matches(key) && instances[i].front == Some(
                    j as usize,
                ) by {
                if before.pool.busy[j] {
                    assert(instances[n - 1].matches(key) && instances[n - 1].front == Some(
                        j as usize,
                    ));
                } else {
                    let i = choose|i: int|
                        0 <= i < n - 1 && (#[trigger] instances[i]).matches(key)
                            && instances[i].front == Some(j as usize);
                    assert(instances[i].matches(key));
                }
            }
        } else {
            assert forall|a: int| 0 <= a < after.kept.len() implies exists|i: int|
                0 <= i < n && instances[i] == #[trigger] after.kept[a] && !instances[i].matches(
                    key,
                ) by {
                if a < before.kept.len() {
                    let i = choose|i: int|
                        0 <= i < n - 1 && instances[i] == before.kept[a] && !instances[i].matches(
                            key,
                        );
                    assert(0 <= i < n && instances[i] == after.kept[a]);
                } else {
                    assert(instances[n - 1] == after.kept[a]);
                }
            }
            assert forall|i: int|
                0 <= i < n && !(#[trigger] instances[i]).matches(key) implies after.kept.contains(
                instances[i],
            ) by {
                if i < n - 1 {
                    assert(before.kept.contains(instances[i]));
                    let a = choose|a: int| 0 <= a < before.kept.len() && before.kept[a] == instances[i];
                    assert(after.kept[a] == instances[i]);
                } else {
                    assert(after.kept[before.kept.len() as int] == instances[i]);
                }
            }
            assert forall|j: int|
                0 <= j < pool.busy.len() && pool.busy[j]
                    && !after.pool.busy[j] implies exists|i: int|
                0 <= i < n && (#[trigger] instances[i]).matches(key) && instances[i].front == Some(
                    j as usize,
                ) by {
                let i = choose|i: int|
                    0 <= i < n - 1 && (#[trigger] instances[i]).matches(key) && instances[i].front
                        == Some(j as usize);
                assert(instances[i].matches(key));
            }
            assert forall|a: int, b: int| 0 <= a < b < after.kept.len() implies (
            #[trigger] after.kept[a]).output != (#[trigger] after.kept[b]).output by {
                if b == before.kept.len() {
                    let i = choose|i: int|
                        0 <= i < n - 1 && instances[i] == before.kept[a] && !instances[i].matches(
                            key,
                        );
                    assert(instances[i].output != instances[n - 1].output);
                }
            }
            assert forall|a: int, b: int|
                0 <= a < b < after.kept.len() && (
                #[trigger] after.kept[a]).front is Some implies after.kept[a].front != (
            #[trigger] after.kept[b]).front by {
                if b == before.kept.len() {
                    let i = choose|i: int|
                        0 <= i < n - 1 && instances[i] == before.kept[a] && !instances[i].matches(
                            key,
                        );
                    assert(instances[i].front is Some ==> instances[i].front != instances[n
                        - 1].front);
                }
            }
        }
    }
}

/// A removal leaves a well-formed state behind.
pub proof fn lemma_retire_wf(m: BarModel, key: InstanceKey)
    requires
        m.wf(),
    ensures
        retire(m, key).state.wf(),
{
    let n = m.instances.len() as int;
    lemma_cull(m.pool, m.instances, key, n);
    m.pool.lemma_slots_bound();
    let c = cull(m.pool, m.instances, key, n);
    assert forall|a: int|
        0 <= a < c.kept.len() && (#[trigger] c.kept[a]).front is Some implies c.kept[a].front->Some_0
        < c.pool.busy.len() && c.pool.busy[c.kept[a].front->Some_0 as int] by {
        let i = choose|i: int| 0 <= i < n && m.instances[i] == c.kept[a] && !m.instances[i].matches(key);
        let f = c.kept[a].front->Some_0;
        assert(m.instances[i].front == Some(f));
        assert(f < m.pool.busy.len() && m.pool.busy[f as int]);
        if !c.pool.busy[f as int] {
            let j = choose|j: int|
                0 <= j < n && (#[trigger] m.instances[j]).matches(key) && m.instances[j].front
                    == Some(f);
            if j < i {
                assert(m.instances[j].front is Some ==> m.instances[j].front
                    != m.instances[i].front);
            } else if i < j {
                assert(m.instances[i].front is Some ==> m.instances[i].front
                    != m.instances[j].front);
            }
        }
    }
    assert forall|k: int| 0 <= k < c.pool.busy.len() && #[trigger] c.pool.busy[k] implies shown_by(
        c.kept,
        k as usize,
    ) by {
        assert(m.pool.busy[k]);
        let i = choose|i: int|
            0 <= i < m.instances.len() && (#[trigger] m.instances[i]).front == Some(k as usize);
        if m.instances[i].matches(key) {
            assert(!c.pool.busy[m.instances[i].front->Some_0 as int]);
        } else {
            assert(c.kept.contains(m.instances[i]));
            let a = choose|a: int| 0 <= a < c.kept.len() && c.kept[a] == m.instances[i];
            assert(c.kept[a].front == Some(k as usize));
        }
    }
}

/// Acknowledging a configuration changes neither outputs nor frames.
pub proof fn lemma_acknowledge(instances: Seq<BarInstance>, surface: SurfaceId, busy: Seq<bool>)
    requires
        distinct_outputs(instances),
        fronts_held(instances, busy),
        fronts_apart(instances),
        busy_shown(instances, busy),
    ensures
        distinct_outputs(instances.map_values(acknowledge(surface))),
        fronts_held(instances.map_values(acknowledge(surface)), busy),
        fronts_apart(instances.map_values(acknowledge(surface))),
        busy_shown(instances.map_values(acknowledge(surface)), busy),
{
    let after = instances.map_values(acknowledge(surface));
    assert forall|i: int| 0 <= i < after.len() implies (#[trigger] after[i]).output
        == instances[i].output && after[i].front == instances[i].front by {}
    assert forall|i: int, j: int| 0 <= i < j < after.len() implies (#[trigger] after[i]).output != (
    #[trigger] after[j]).output by {
        assert(instances[i].output != instances[j].output);
    }
    assert forall|i: int, j: int|
        0 <= i < j < after.len() && (#[trigger] after[i]).front is Some implies after[i].front != (
    #[trigger] after[j]).front by {
        assert(instances[i].front is Some ==> instances[i].front != instances[j].front);
    }
    assert forall|i: int|
        0 <= i < after.len() && (#[trigger] after[i]).front is Some implies after[i].front->Some_0
        < busy.len() && busy[after[i].front->Some_0 as int] by {
        assert(instances[i].front == after[i].front);
    }
    assert forall|k: int| 0 <= k < busy.len() && #[trigger] busy[k] implies shown_by(
        after,
        k as usize,
    ) by {
        let i = choose|i: int|
            0 <= i < instances.len() && (#[trigger] instances[i]).front == Some(k as usize);
        assert(after[i].front == Some(k as usize));
    }
}

/// A configuration leaves a well-formed state behind.
pub proof fn lemma_configure_wf(m: BarModel, surface: SurfaceId, width: u32, height: u32)
    requires
        m.wf(),
    ensures
        configure(m, surface, width, height).state.wf(),
{
    lemma_acknowledge(m.instances, surface, m.pool.busy);
    let size = effective_size(width, height);
    let settled = BarModel {
        width: size.0,
        height: size.1,
        instances: m.instances.map_values(acknowledge(surface)),
        ..m
    };
    lemma_draw_wf(settled);
}

/// Every step leaves a well-formed state behind.
pub proof fn lemma_step_wf(m: BarModel, event: Event)
    requires
        m.wf(),
    ensures
        step(m, event) matches Ok(after) ==> after.state.wf(),
{
    match event {
        Event::OutputAdded { output, surface } => {
            if m.globals.layer_shell && !has_output(m.instances, output) {
                let after = m.instances.push(BarInstance::pending(surface, output));
                assert forall|i: int, j: int| 0 <= i < j < after.len() implies (
                #[trigger] after[i]).output != (#[trigger] after[j]).output by {
                    if j == m.instances.len() {
                        assert(m.instances[i].output != output);
                    }
                }
                assert forall|k: int|
                    0 <= k < m.pool.busy.len() && #[trigger] m.pool.busy[k] implies shown_by(
                    after,
                    k as usize,
                ) by {
                    let i = choose|i: int|
                        0 <= i < m.instances.len() && (#[trigger] m.instances[i]).front == Some(
                            k as usize,
                        );
                    assert(after[i].front == Some(k as usize));
                }
            }
        },
        Event::OutputUpdated { output } => {},
        Event::OutputRemoved { output } => {
            lemma_retire_wf(m, InstanceKey::Output(output));
        },
        Event::Configured { surface, width, height } => {
            lemma_configure_wf(m, surface, width, height);
        },
        Event::FrameDone { surface } => {
            lemma_draw_wf(m);
        },
        Event::Closed { surface } => {
            lemma_retire_wf(m, InstanceKey::Surface(surface));
        },
        Event::Pointer(event) => {},
        Event::CapabilityAdded(capability) => {},
        Event::CapabilityRemoved(capability) => {},
        Event::GlobalRemoved(capability) => {},
    }
}

/// Every run leaves a well-formed state behind.
pub proof fn lemma_run_wf(m: BarModel, events: Seq<Event>, n: int)
    requires
        m.wf(),
        0 <= n <= events.len(),
    ensures
        run(m, events, n) matches Ok(after) ==> after.state.wf(),
    decreases n,
{
    if n > 0 {
        lemma_run_wf(m, events, n - 1);
        match run(m, events, n - 1) {
            Ok(before) => {
                lemma_step_wf(before.state, events[n - 1]);
            },
            Err(e) => {},
        }
    }
}

} // verus!
