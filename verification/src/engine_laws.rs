//! What holds of the remap engine over several steps: a plain remapping
//! presses and releases its target, a hold macro lasts until its source is
//! released, stopping macros only releases, a cancel step clears macro
//! output, queued macro steps stay in time order, layers follow their
//! controls, turbo alternates, and press activators fire when they should.

use vstd::prelude::*;
use crate::engine_spec::{
    OutputEvent, QueuedStep, ScheduledMacroEvent, EngineModel, Step, key_index, assoc_get, assoc_set,
    assoc_remove, item_index, lemma_key_index, active_below, active_layer, resolution_of, r_action,
    r_target, r_activator, r_turbo, r_emits, queue_position, queued, enqueue_from, is_key_target,
    key_releases, axis_releases, stop_macros, key_step, macro_due, activation_from, TurboState, turbo_from,
    sat_add, PendingActivator, fire_mapping, due_activators, due_sources, due_from, Resolution, r_macro,
    set_insert, set_remove, lemma_item_index,
};
use crate::event_code::EventCode;
use crate::profiles::{ActivatorKind, LayerActivationMode, MacroMode, MappingAction};

verus! {

// ---------------------------------------------------------------------------
// Plain remappings

/// The source goes to the device through a plain remapping fired on press,
/// without turbo, and nothing holds it yet.
pub open spec fn plain_idle(m: EngineModel, source: EventCode) -> bool {
    let r = resolution_of(m, source);
    &&& r_activator(m, r).kind == ActivatorKind::Press
    &&& r_action(m, r) == MappingAction::Remap
    &&& r_emits(m, r, source)
    &&& r_turbo(m, r) is None
    &&& assoc_get(m.key_targets, source) is None
    &&& assoc_get(m.turbo, source) is None
    &&& item_index(m.macro_sources, source) is None
    &&& item_index(m.command_sources, source) is None
}

proof fn lemma_set_then_remove<K, V>(s: Seq<(K, V)>, k: K, v: V)
    requires
        key_index(s, k) is None,
    ensures
        assoc_set(s, k, v) == s.push((k, v)),
        assoc_get(s.push((k, v)), k) == Some(v),
        assoc_remove(s.push((k, v)), k) == s,
{
    lemma_key_index(s, k);
    let t = s.push((k, v));
    lemma_key_index(t, k);
    assert(t[s.len() as int].0 == k);
    match key_index(t, k) {
        Some(i) => {
            if i < s.len() {
                assert(t[i] == s[i]);
            }
            assert(i == s.len());
            assert(t.remove(i) =~= s);
        },
        None => {},
    }
}

/// The layer chosen depends on the layers and their held and toggled flags
/// only.
proof fn lemma_active_below_same(a: EngineModel, b: EngineModel, n: int)
    requires
        a.held == b.held,
        a.toggled == b.toggled,
    ensures
        active_below(a, n) == active_below(b, n),
    decreases n,
{
    if n > 1 {
        lemma_active_below_same(a, b, n - 1);
    }
}

/// Pressing and then releasing a source that a plain remapping sends to the
/// device (fired on press, without turbo, not held yet) emits the target's
/// press and then its release, and leaves the engine as it was.
pub proof fn law_press_release_round_trip(s: Step, source: EventCode, pressed_at: u64, released_at: u64)
    requires
        plain_idle(s.m, source),
    ensures
        key_step(key_step(s, source, 1, pressed_at), source, 0, released_at) == (Step {
            events: s.events
                .push(OutputEvent { code: r_target(s.m, resolution_of(s.m, source), source), value: 1 })
                .push(OutputEvent { code: r_target(s.m, resolution_of(s.m, source), source), value: 0 }),
            ..s
        }),
{
    let m = s.m;
    let r = resolution_of(m, source);
    let t = r_target(m, r, source);
    lemma_key_index(m.key_targets, source);
    lemma_set_then_remove(m.key_targets, source, t);
    let s1 = key_step(s, source, 1, pressed_at);
    let m1 = EngineModel { key_targets: m.key_targets.push((source, t)), ..m };
    assert(s1 == Step { m: m1, events: s.events.push(OutputEvent { code: t, value: 1 }), ..s });
    lemma_active_below_same(m, m1, m.layers.len() as int);
    assert(resolution_of(m1, source) == r);
    let s2 = key_step(s1, source, 0, released_at);
    assert(s2.m == m);
}

// ---------------------------------------------------------------------------
// Hold macros

/// The source goes through a hold macro fired on press, and nothing holds it
/// yet.
pub open spec fn hold_macro_idle(m: EngineModel, source: EventCode) -> bool {
    let r = resolution_of(m, source);
    &&& r_activator(m, r).kind == ActivatorKind::Press
    &&& r_action(m, r) == MappingAction::Macro
    &&& r_macro(m, r) matches Some(ms) && ms.mode == MacroMode::Hold
    &&& assoc_get(m.key_targets, source) is None
    &&& item_index(m.macro_sources, source) is None
    &&& item_index(m.command_sources, source) is None
    &&& assoc_get(m.held_releases, source) is None
}

proof fn lemma_insert_then_remove<K>(s: Seq<K>, k: K)
    requires
        item_index(s, k) is None,
    ensures
        set_insert(s, k) == s.push(k),
        item_index(s.push(k), k) is Some,
        set_remove(s.push(k), k) == s,
{
    lemma_item_index(s, k);
    let t = s.push(k);
    lemma_item_index(t, k);
    assert(t[s.len() as int] == k);
    match item_index(t, k) {
        Some(i) => {
            if i < s.len() {
                assert(t[i] == s[i]);
            }
            assert(i == s.len());
            assert(t.remove(i) =~= s);
        },
        None => {},
    }
}

/// A hold macro lasts until its source is released: pressing the source
/// queues the macro's events from the press time, releasing it queues the
/// macro's release events from the release time, nothing is sent at once,
/// and all else is left as it was.
pub proof fn law_hold_macro_press_release(s: Step, source: EventCode, pressed_at: u64, released_at: u64)
    requires
        hold_macro_idle(s.m, source),
    ensures
        r_macro(s.m, resolution_of(s.m, source)) matches Some(ms)
            && key_step(key_step(s, source, 1, pressed_at), source, 0, released_at) == (Step {
                m: EngineModel {
                    queue: enqueue_from(enqueue_from(s.m.queue, ms.events, pressed_at, 0, 0), ms.release_events, released_at, 0, 0),
                    ..s.m
                },
                ..s
            }),
{
    let m = s.m;
    let r = resolution_of(m, source);
    let ms = r_macro(m, r)->0;
    lemma_insert_then_remove(m.macro_sources, source);
    lemma_key_index(m.held_releases, source);
    lemma_set_then_remove(m.held_releases, source, r);
    let q1 = enqueue_from(m.queue, ms.events, pressed_at, 0, 0);
    let m1 = EngineModel {
        macro_sources: m.macro_sources.push(source),
        queue: q1,
        held_releases: m.held_releases.push((source, r)),
        ..m
    };
    let s1 = key_step(s, source, 1, pressed_at);
    assert(s1 == Step { m: m1, ..s });
    lemma_active_below_same(m, m1, m.layers.len() as int);
    assert(resolution_of(m1, source) == r);
    lemma_key_index(m1.key_targets, source);
    let m2 = EngineModel { queue: q1, ..m };
    assert(r_macro(m2, r) == Some(ms));
    let s2 = key_step(s1, source, 0, released_at);
    assert(s2.m == EngineModel { queue: enqueue_from(q1, ms.release_events, released_at, 0, 0), ..m });
}

// ---------------------------------------------------------------------------
// Stopping macros

proof fn lemma_key_releases(keys: Seq<EventCode>, targets: Seq<(EventCode, EventCode)>)
    ensures
        forall|i: int| 0 <= i < key_releases(keys, targets).len() ==> {
            let e = #[trigger] key_releases(keys, targets)[i];
            e.value == 0 && keys.contains(e.code) && !is_key_target(targets, e.code)
        },
    decreases keys.len(),
{
    if keys.len() > 0 {
        let prev = keys.drop_last();
        lemma_key_releases(prev, targets);
        assert forall|i: int| 0 <= i < key_releases(keys, targets).len() implies {
            let e = #[trigger] key_releases(keys, targets)[i];
            e.value == 0 && keys.contains(e.code) && !is_key_target(targets, e.code)
        } by {
            let e = key_releases(keys, targets)[i];
            if i < key_releases(prev, targets).len() {
                assert(e == key_releases(prev, targets)[i]);
                let j = choose|j: int| 0 <= j < prev.len() && prev[j] == e.code;
                assert(keys[j] == e.code);
            } else {
                assert(keys[keys.len() - 1] == e.code);
            }
        }
    }
}

proof fn lemma_axis_releases(axes: Seq<(EventCode, i32)>)
    ensures
        forall|i: int| 0 <= i < axis_releases(axes).len() ==> {
            let e = #[trigger] axis_releases(axes)[i];
            e.value == 0 && exists|j: int| 0 <= j < axes.len() && axes[j].0 == e.code && axes[j].1 != 0
        },
    decreases axes.len(),
{
    if axes.len() > 0 {
        let prev = axes.drop_last();
        lemma_axis_releases(prev);
        assert forall|i: int| 0 <= i < axis_releases(axes).len() implies {
            let e = #[trigger] axis_releases(axes)[i];
            e.value == 0 && exists|j: int| 0 <= j < axes.len() && axes[j].0 == e.code && axes[j].1 != 0
        } by {
            let e = axis_releases(axes)[i];
            if i < axis_releases(prev).len() {
                assert(e == axis_releases(prev)[i]);
                let j = choose|j: int| 0 <= j < prev.len() && prev[j].0 == e.code && prev[j].1 != 0;
                assert(axes[j] == prev[j]);
            } else {
                assert(axes[axes.len() - 1].0 == e.code);
            }
        }
    }
}

/// Stopping macros leaves nothing queued and nothing held by macros,
/// launches nothing, and only sends releases: each event it adds sets to 0
/// a key that macro output held and no held mapping holds, or an axis that
/// macro output left away from 0.
pub proof fn law_stop_macros_only_releases(s: Step)
    ensures
        stop_macros(s).m.queue.len() == 0,
        stop_macros(s).m.macro_sources.len() == 0,
        stop_macros(s).m.held_releases.len() == 0,
        stop_macros(s).m.output_keys.len() == 0,
        stop_macros(s).m.output_axes.len() == 0,
        stop_macros(s).m.key_targets == s.m.key_targets,
        stop_macros(s).commands == s.commands,
        stop_macros(s).events.subrange(0, s.events.len() as int) == s.events,
        forall|i: int| s.events.len() <= i < stop_macros(s).events.len() ==> {
            let e = #[trigger] stop_macros(s).events[i];
            &&& e.value == 0
            &&& (s.m.output_keys.contains(e.code) && !is_key_target(s.m.key_targets, e.code))
                || exists|j: int| 0 <= j < s.m.output_axes.len() && s.m.output_axes[j].0 == e.code && s.m.output_axes[j].1 != 0
        },
{
    lemma_key_releases(s.m.output_keys, s.m.key_targets);
    lemma_axis_releases(s.m.output_axes);
    let keys = key_releases(s.m.output_keys, s.m.key_targets);
    let axes = axis_releases(s.m.output_axes);
    let all = stop_macros(s).events;
    assert(all == s.events + keys + axes);
    assert(all.subrange(0, s.events.len() as int) =~= s.events);
    assert forall|i: int| s.events.len() <= i < all.len() implies {
        let e = #[trigger] all[i];
        &&& e.value == 0
        &&& (s.m.output_keys.contains(e.code) && !is_key_target(s.m.key_targets, e.code))
            || exists|j: int| 0 <= j < s.m.output_axes.len() && s.m.output_axes[j].0 == e.code && s.m.output_axes[j].1 != 0
    } by {
        let k = i - s.events.len();
        if k < keys.len() {
            assert(all[i] == keys[k]);
        } else {
            assert(all[i] == axes[k - keys.len()]);
        }
    }
}

/// A cancel step, once due, stops all queued and held macro output: nothing
/// is left queued, no key or axis is held by macro output, no macro source
/// is held, and no step is handed back.
pub proof fn law_cancel_stops_macros(s: Step, now: u64)
    requires
        s.m.queue.len() > 0,
        s.m.queue[0].step == QueuedStep::Cancel,
        s.m.queue[0].due_ms <= now,
    ensures
        macro_due(s, now).1 is None,
        macro_due(s, now).0.m.queue.len() == 0,
        macro_due(s, now).0.m.output_keys.len() == 0,
        macro_due(s, now).0.m.output_axes.len() == 0,
        macro_due(s, now).0.m.macro_sources.len() == 0,
        macro_due(s, now).0.m.held_releases.len() == 0,
        macro_due(s, now).0.commands == s.commands,
{
    let s1 = Step { m: EngineModel { queue: s.m.queue.drop_first(), ..s.m }, ..s };
    law_stop_macros_only_releases(s1);
}

// ---------------------------------------------------------------------------
// The macro queue

/// The queue is in time order.
pub open spec fn sorted_by_due(q: Seq<ScheduledMacroEvent>) -> bool {
    forall|a: int, b: int| 0 <= a < b < q.len() ==> q[a].due_ms <= q[b].due_ms
}

proof fn lemma_queue_position(q: Seq<ScheduledMacroEvent>, due: u64)
    requires
        sorted_by_due(q),
    ensures
        0 <= queue_position(q, due) <= q.len(),
        forall|a: int| 0 <= a < queue_position(q, due) ==> q[a].due_ms <= due,
        forall|a: int| queue_position(q, due) <= a < q.len() ==> due < q[a].due_ms,
    decreases q.len(),
{
    if q.len() > 0 && !(due < q[0].due_ms) {
        let t = q.drop_first();
        assert forall|a: int, b: int| 0 <= a < b < t.len() implies t[a].due_ms <= t[b].due_ms by {
            assert(t[a] == q[a + 1]);
            assert(t[b] == q[b + 1]);
        }
        lemma_queue_position(t, due);
        assert forall|a: int| 0 <= a < queue_position(q, due) implies q[a].due_ms <= due by {
            if a > 0 {
                assert(q[a] == t[a - 1]);
            }
        }
        assert forall|a: int| queue_position(q, due) <= a < q.len() implies due < q[a].due_ms by {
            assert(q[a] == t[a - 1]);
        }
    } else if q.len() > 0 {
        assert forall|a: int| 0 <= a < q.len() implies due < q[a].due_ms by {
            assert(q[0].due_ms <= q[a].due_ms);
        }
    }
}

/// A new macro step goes after every queued step due no later than it and
/// before every step due later, so the queue stays in time order and steps
/// due at the same time keep the order in which they were queued.
pub proof fn law_queued_in_time_order(q: Seq<ScheduledMacroEvent>, x: ScheduledMacroEvent)
    requires
        sorted_by_due(q),
    ensures
        sorted_by_due(queued(q, x)),
        queued(q, x).len() == q.len() + 1,
        queued(q, x)[queue_position(q, x.due_ms)] == x,
        forall|a: int| 0 <= a < queue_position(q, x.due_ms) ==> q[a].due_ms <= x.due_ms,
        forall|a: int| queue_position(q, x.due_ms) <= a < q.len() ==> x.due_ms < q[a].due_ms,
{
    lemma_queue_position(q, x.due_ms);
    let p = queue_position(q, x.due_ms);
    let n = queued(q, x);
    assert forall|a: int, b: int| 0 <= a < b < n.len() implies n[a].due_ms <= n[b].due_ms by {
        let ia = if a < p { a } else if a == p { -1 } else { a - 1 };
        let ib = if b < p { b } else if b == p { -1 } else { b - 1 };
        if a != p && b != p {
            assert(n[a] == q[ia]);
            assert(n[b] == q[ib]);
        } else if a == p {
            assert(n[b] == q[b - 1]);
        } else {
            assert(n[a] == q[a]);
        }
    }
}

/// Queuing a macro's steps keeps the queue in time order, so steps come out
/// in the order of their times.
pub proof fn law_enqueue_in_time_order(
    q: Seq<ScheduledMacroEvent>,
    events: Seq<crate::profiles::MacroEventModel>,
    now: u64,
    offset: u64,
    k: int,
)
    requires
        sorted_by_due(q),
    ensures
        sorted_by_due(enqueue_from(q, events, now, offset, k)),
    decreases events.len() - k,
{
    if 0 <= k < events.len() {
        let e = events[k];
        let due = crate::engine_spec::sat_add(now, offset);
        if e.kind == crate::profiles::MacroEventKind::Pause {
            law_enqueue_in_time_order(q, events, now, crate::engine_spec::sat_add(offset, e.pause_ms), k + 1);
        } else if e.kind == crate::profiles::MacroEventKind::Tap {
            match e.code {
                Some(c) => {
                    let x1 = ScheduledMacroEvent { due_ms: due, step: QueuedStep::Emit { event: c, value: 1 } };
                    law_queued_in_time_order(q, x1);
                    let q1 = queued(q, x1);
                    let off2 = crate::engine_spec::sat_add(offset, crate::profiles::MACRO_TAP_RELEASE_MS);
                    let x2 = ScheduledMacroEvent {
                        due_ms: crate::engine_spec::sat_add(now, off2),
                        step: QueuedStep::Emit { event: c, value: 0 },
                    };
                    law_queued_in_time_order(q1, x2);
                    law_enqueue_in_time_order(queued(q1, x2), events, now, off2, k + 1);
                },
                None => {
                    law_enqueue_in_time_order(q, events, now, offset, k + 1);
                },
            }
        } else if e.kind == crate::profiles::MacroEventKind::Cancel {
            let x = ScheduledMacroEvent { due_ms: due, step: QueuedStep::Cancel };
            law_queued_in_time_order(q, x);
            law_enqueue_in_time_order(queued(q, x), events, now, offset, k + 1);
        } else {
            match e.code {
                Some(c) => {
                    let x = ScheduledMacroEvent { due_ms: due, step: QueuedStep::Emit { event: c, value: e.value } };
                    law_queued_in_time_order(q, x);
                    law_enqueue_in_time_order(queued(q, x), events, now, offset, k + 1);
                },
                None => {
                    law_enqueue_in_time_order(q, events, now, offset, k + 1);
                },
            }
        }
    }
}

// ---------------------------------------------------------------------------
// Hold layers

/// Layer `j` is a shift layer whose activation control is `c`.
pub open spec fn controlled_by(m: EngineModel, j: int, c: EventCode) -> bool {
    1 <= j < m.layers.len() && (m.layers[j].activation matches Some(a) && a.control == c)
}

/// Layer `j` is a hold layer whose activation control is `c`.
pub open spec fn held_by(m: EngineModel, j: int, c: EventCode) -> bool {
    controlled_by(m, j, c) && (m.layers[j].activation matches Some(a) && a.mode == LayerActivationMode::Hold)
}

/// Some shift layer whose control is `c` consumes it.
pub open spec fn consumed_by(m: EngineModel, c: EventCode) -> bool {
    exists|j: int| #[trigger] controlled_by(m, j, c) && (m.layers[j].activation matches Some(a) && a.consume)
}

proof fn lemma_activation(m: EngineModel, consumed: bool, c: EventCode, v: i32, k: int)
    requires
        m.held.len() == m.layers.len(),
        m.toggled.len() == m.layers.len(),
        k >= 1,
    ensures
        activation_from(m, consumed, c, v, k).0 == (EngineModel {
            held: activation_from(m, consumed, c, v, k).0.held,
            toggled: activation_from(m, consumed, c, v, k).0.toggled,
            pressed_activators: activation_from(m, consumed, c, v, k).0.pressed_activators,
            ..m
        }),
        activation_from(m, consumed, c, v, k).0.held.len() == m.held.len(),
        activation_from(m, consumed, c, v, k).0.toggled.len() == m.toggled.len(),
        forall|j: int| 0 <= j < m.layers.len() ==> #[trigger] activation_from(m, consumed, c, v, k).0.held[j]
            == if k <= j && held_by(m, j, c) { v != 0 } else { m.held[j] },
        forall|j: int| 0 <= j < m.layers.len() && !(k <= j && controlled_by(m, j, c))
            ==> #[trigger] activation_from(m, consumed, c, v, k).0.toggled[j] == m.toggled[j],
        (forall|j: int| k <= j && #[trigger] controlled_by(m, j, c) ==> held_by(m, j, c)) ==> {
            &&& activation_from(m, consumed, c, v, k).0.toggled == m.toggled
            &&& activation_from(m, consumed, c, v, k).0.pressed_activators == m.pressed_activators
        },
        activation_from(m, consumed, c, v, k).1 == (consumed || exists|j: int|
            k <= j && #[trigger] controlled_by(m, j, c) && (m.layers[j].activation matches Some(a) && a.consume)),
    decreases m.layers.len() - k,
{
    if k < m.layers.len() {
        let next: (EngineModel, bool) = match m.layers[k].activation {
            Some(a) => if a.control == c {
                let c2 = consumed || a.consume;
                match a.mode {
                    LayerActivationMode::Hold => (EngineModel { held: m.held.update(k, v != 0), ..m }, c2),
                    LayerActivationMode::Toggle => {
                        let key = (k as usize, c);
                        if v == 0 {
                            (EngineModel { pressed_activators: crate::engine_spec::set_remove(m.pressed_activators, key), ..m }, c2)
                        } else if item_index(m.pressed_activators, key) is None {
                            (
                                EngineModel {
                                    pressed_activators: m.pressed_activators.push(key),
                                    toggled: m.toggled.update(k, !m.toggled[k]),
                                    ..m
                                },
                                c2,
                            )
                        } else {
                            (m, c2)
                        }
                    },
                }
            } else {
                (m, consumed)
            },
            None => (m, consumed),
        };
        assert(activation_from(m, consumed, c, v, k) == activation_from(next.0, next.1, c, v, k + 1));
        lemma_activation(next.0, next.1, c, v, k + 1);
        assert forall|j: int| 0 <= j < m.layers.len() implies #[trigger] controlled_by(next.0, j, c) == controlled_by(m, j, c)
            && held_by(next.0, j, c) == held_by(m, j, c) by {}
        let r = activation_from(m, consumed, c, v, k);
        assert forall|j: int| 0 <= j < m.layers.len() implies #[trigger] r.0.held[j]
            == if k <= j && held_by(m, j, c) { v != 0 } else { m.held[j] } by {
            assert(controlled_by(next.0, j, c) == controlled_by(m, j, c));
        }
        assert forall|j: int| 0 <= j < m.layers.len() && !(k <= j && controlled_by(m, j, c))
            implies #[trigger] r.0.toggled[j] == m.toggled[j] by {
            assert(controlled_by(next.0, j, c) == controlled_by(m, j, c));
        }
        if forall|j: int| k <= j && #[trigger] controlled_by(m, j, c) ==> held_by(m, j, c) {
            assert forall|j: int| k + 1 <= j && #[trigger] controlled_by(next.0, j, c) implies held_by(next.0, j, c) by {
                assert(controlled_by(m, j, c));
            }
            if controlled_by(m, k, c) {
                assert(held_by(m, k, c));
            }
        }
        let consumes = exists|j: int| k <= j && #[trigger] controlled_by(m, j, c) && (m.layers[j].activation matches Some(a) && a.consume);
        if consumes {
            let j = choose|j: int| k <= j && #[trigger] controlled_by(m, j, c) && (m.layers[j].activation matches Some(a) && a.consume);
            if j > k {
                assert(controlled_by(next.0, j, c));
            }
        }
        if exists|j: int| k + 1 <= j && #[trigger] controlled_by(next.0, j, c) && (next.0.layers[j].activation matches Some(a) && a.consume) {
            let j = choose|j: int| k + 1 <= j && #[trigger] controlled_by(next.0, j, c) && (next.0.layers[j].activation matches Some(a) && a.consume);
            assert(controlled_by(m, j, c));
        }
    } else {
        assert(activation_from(m, consumed, c, v, k) == (m, consumed));
        assert(activation_from(m, consumed, c, v, k).0.held =~= m.held);
    }
}

proof fn lemma_active_at_least(m: EngineModel, i: int, n: int)
    requires
        1 <= i < n <= m.held.len(),
        n <= m.toggled.len(),
        m.held[i] || m.toggled[i],
    ensures
        active_below(m, n) >= i,
    decreases n,
{
    if !(m.held[n - 1] || m.toggled[n - 1]) {
        lemma_active_at_least(m, i, n - 1);
    }
}

/// A hold layer follows its control: after an event of control `c` with
/// value `v`, every hold layer that `c` controls is held exactly when `v` is
/// nonzero (so the active layer is at least that layer while the control is
/// down), layers that `c` does not control keep their flags, and the event
/// is consumed exactly when a layer that `c` controls consumes its control.
pub proof fn law_hold_layer_follows_control(m: EngineModel, c: EventCode, v: i32)
    requires
        crate::engine::engine_wf(m),
    ensures
        forall|j: int| #[trigger] held_by(m, j, c) ==> activation_from(m, false, c, v, 1).0.held[j] == (v != 0),
        forall|j: int| 0 <= j < m.layers.len() && !#[trigger] controlled_by(m, j, c) ==> {
            &&& activation_from(m, false, c, v, 1).0.held[j] == m.held[j]
            &&& activation_from(m, false, c, v, 1).0.toggled[j] == m.toggled[j]
        },
        v != 0 ==> forall|j: int| #[trigger] held_by(m, j, c) ==> active_layer(activation_from(m, false, c, v, 1).0) >= j,
        activation_from(m, false, c, v, 1).0.layers == m.layers,
        activation_from(m, false, c, v, 1).1 == consumed_by(m, c),
{
    lemma_activation(m, false, c, v, 1);
    let m2 = activation_from(m, false, c, v, 1).0;
    assert forall|j: int| #[trigger] held_by(m, j, c) implies m2.held[j] == (v != 0) by {}
    if v != 0 {
        assert forall|j: int| #[trigger] held_by(m, j, c) implies active_layer(m2) >= j by {
            assert(m2.held[j]);
            lemma_active_at_least(m2, j, m2.layers.len() as int);
        }
    }
    if activation_from(m, false, c, v, 1).1 {
        let j = choose|j: int| 1 <= j && #[trigger] controlled_by(m, j, c) && (m.layers[j].activation matches Some(a) && a.consume);
        assert(controlled_by(m, j, c));
    }
}

/// Pressing and releasing the control of hold layers gives back the state
/// before, when every shift layer it controls is a hold layer that was not
/// held.
pub proof fn law_hold_press_release_restores(m: EngineModel, c: EventCode)
    requires
        crate::engine::engine_wf(m),
        forall|j: int| #[trigger] controlled_by(m, j, c) ==> held_by(m, j, c) && !m.held[j],
    ensures
        activation_from(activation_from(m, false, c, 1, 1).0, false, c, 0, 1).0 == m,
{
    lemma_activation(m, false, c, 1, 1);
    let m1 = activation_from(m, false, c, 1, 1).0;
    assert forall|j: int| 1 <= j && #[trigger] controlled_by(m1, j, c) implies held_by(m1, j, c) by {
        assert(controlled_by(m, j, c));
    }
    lemma_activation(m1, false, c, 0, 1);
    let m2 = activation_from(m1, false, c, 0, 1).0;
    assert forall|j: int| 0 <= j < m.held.len() implies m2.held[j] == m.held[j] by {
        if held_by(m, j, c) {
            assert(held_by(m1, j, c));
        } else {
            assert(!held_by(m1, j, c));
        }
    }
    assert(m2.held =~= m.held);
}

// ---------------------------------------------------------------------------
// Turbo

/// A turbo state at `now`: when due, its output flips and its next flip is
/// one interval later; otherwise it waits.
pub open spec fn turbo_tick(t: TurboState, now: u64) -> TurboState {
    if now < t.next_toggle_ms {
        t
    } else {
        TurboState { output_down: !t.output_down, next_toggle_ms: sat_add(now, t.interval_ms), ..t }
    }
}

/// The events the turbo states from `k` on send at `now`: each due one
/// presses its target when its output goes down and releases it when it
/// goes up.
pub open spec fn turbo_events(ts: Seq<(EventCode, TurboState)>, now: u64, k: int) -> Seq<OutputEvent>
    decreases ts.len() - k,
{
    if k < 0 || k >= ts.len() {
        Seq::empty()
    } else {
        let t = ts[k].1;
        let here: Seq<OutputEvent> = if now < t.next_toggle_ms {
            Seq::empty()
        } else {
            seq![OutputEvent { code: t.target, value: if t.output_down { 0 } else { 1 } }]
        };
        here + turbo_events(ts, now, k + 1)
    }
}

proof fn lemma_turbo_from(s: Step, ts: Seq<(EventCode, TurboState)>, now: u64, k: int)
    requires
        0 <= k <= ts.len(),
        s.m.turbo.len() == ts.len(),
        forall|j: int| k <= j < ts.len() ==> s.m.turbo[j] == ts[j],
    ensures
        turbo_from(s, now, k) == (Step {
            m: EngineModel {
                turbo: Seq::new(ts.len(), |j: int| if j < k { s.m.turbo[j] } else { (ts[j].0, turbo_tick(ts[j].1, now)) }),
                ..s.m
            },
            events: s.events + turbo_events(ts, now, k),
            ..s
        }),
    decreases ts.len() - k,
{
    if k < ts.len() {
        let (source, t) = s.m.turbo[k];
        let next = if now < t.next_toggle_ms {
            s
        } else {
            let down = !t.output_down;
            let nt = TurboState { output_down: down, next_toggle_ms: sat_add(now, t.interval_ms), ..t };
            Step {
                m: EngineModel { turbo: s.m.turbo.update(k, (source, nt)), ..s.m },
                events: s.events.push(OutputEvent { code: t.target, value: if down { 1 } else { 0 } }),
                ..s
            }
        };
        assert(turbo_from(s, now, k) == turbo_from(next, now, k + 1));
        lemma_turbo_from(next, ts, now, k + 1);
        let here: Seq<OutputEvent> = if now < t.next_toggle_ms {
            Seq::empty()
        } else {
            seq![OutputEvent { code: t.target, value: if t.output_down { 0 } else { 1 } }]
        };
        assert(turbo_events(ts, now, k) == here + turbo_events(ts, now, k + 1));
        assert(next.events + turbo_events(ts, now, k + 1) =~= s.events + turbo_events(ts, now, k));
        assert(Seq::new(ts.len(), |j: int| if j < k + 1 { next.m.turbo[j] } else { (ts[j].0, turbo_tick(ts[j].1, now)) })
            =~= Seq::new(ts.len(), |j: int| if j < k { s.m.turbo[j] } else { (ts[j].0, turbo_tick(ts[j].1, now)) }));
    } else {
        assert(s.events + turbo_events(ts, now, k) =~= s.events);
        assert(Seq::new(ts.len(), |j: int| if j < k { s.m.turbo[j] } else { (ts[j].0, turbo_tick(ts[j].1, now)) }) =~= s.m.turbo);
    }
}

/// One turbo pass at `now` ticks every turbo state (see [`turbo_tick`]) and
/// sends, in order, one event for each state that was due: a press when its
/// output goes down, a release when it goes up. Nothing else changes.
pub proof fn law_turbo_pass(s: Step, now: u64)
    ensures
        turbo_from(s, now, 0) == (Step {
            m: EngineModel {
                turbo: s.m.turbo.map_values(|p: (EventCode, TurboState)| (p.0, turbo_tick(p.1, now))),
                ..s.m
            },
            events: s.events + turbo_events(s.m.turbo, now, 0),
            ..s
        }),
{
    lemma_turbo_from(s, s.m.turbo, now, 0);
    assert(Seq::new(s.m.turbo.len(), |j: int| if j < 0 { s.m.turbo[j] } else { (s.m.turbo[j].0, turbo_tick(s.m.turbo[j].1, now)) })
        =~= s.m.turbo.map_values(|p: (EventCode, TurboState)| (p.0, turbo_tick(p.1, now))));
}

/// A turbo target alternates: two ticks at times when it is due bring its
/// output back to where it was.
pub proof fn law_turbo_alternates(t: TurboState, first: u64, second: u64)
    requires
        t.next_toggle_ms <= first,
        sat_add(first, t.interval_ms) <= second,
    ensures
        turbo_tick(t, first).output_down == !t.output_down,
        turbo_tick(turbo_tick(t, first), second).output_down == t.output_down,
        turbo_tick(turbo_tick(t, first), second).target == t.target,
{
}

// ---------------------------------------------------------------------------
// Toggle layers

/// The state after an event of control `c` with value `v`.
pub open spec fn on_control(m: EngineModel, c: EventCode, v: i32) -> EngineModel {
    activation_from(m, false, c, v, 1).0
}

proof fn lemma_skip(m: EngineModel, consumed: bool, c: EventCode, v: i32, k: int, n: int)
    requires
        1 <= k <= n <= m.layers.len(),
        forall|j: int| k <= j < n ==> !#[trigger] controlled_by(m, j, c),
    ensures
        activation_from(m, consumed, c, v, k) == activation_from(m, consumed, c, v, n),
    decreases n - k,
{
    if k < n {
        assert(!controlled_by(m, k, c));
        assert(activation_from(m, consumed, c, v, k) == activation_from(m, consumed, c, v, k + 1));
        lemma_skip(m, consumed, c, v, k + 1, n);
    }
}

proof fn lemma_push_then_remove<K>(s: Seq<K>, k: K)
    requires
        item_index(s, k) is None,
    ensures
        item_index(s.push(k), k) == Some(s.len() as int),
        crate::engine_spec::set_remove(s.push(k), k) == s,
{
    crate::engine_spec::lemma_item_index(s, k);
    let t = s.push(k);
    crate::engine_spec::lemma_item_index(t, k);
    assert(t[s.len() as int] == k);
    match item_index(t, k) {
        Some(i) => {
            if i < s.len() {
                assert(t[i] == s[i]);
            }
            assert(t.remove(i) =~= s);
        },
        None => {},
    }
}

/// The only layer that `c` controls is layer `i`, a toggle layer, and its
/// control is up.
pub open spec fn sole_toggle(m: EngineModel, c: EventCode, i: int) -> bool {
    &&& controlled_by(m, i, c)
    &&& (m.layers[i].activation matches Some(a) && a.mode == LayerActivationMode::Toggle)
    &&& forall|j: int| #[trigger] controlled_by(m, j, c) ==> j == i
    &&& item_index(m.pressed_activators, (i as usize, c)) is None
}

proof fn lemma_toggle_events(m: EngineModel, c: EventCode, i: int)
    requires
        crate::engine::engine_wf(m),
        sole_toggle(m, c, i),
    ensures
        on_control(m, c, 1) == (EngineModel {
            pressed_activators: m.pressed_activators.push((i as usize, c)),
            toggled: m.toggled.update(i, !m.toggled[i]),
            ..m
        }),
        on_control(on_control(m, c, 1), c, 1) == on_control(m, c, 1),
        on_control(on_control(m, c, 1), c, 0) == (EngineModel { toggled: m.toggled.update(i, !m.toggled[i]), ..m }),
{
    let key = (i as usize, c);
    lemma_push_then_remove(m.pressed_activators, key);
    lemma_skip(m, false, c, 1, 1, i);
    let p = EngineModel { pressed_activators: m.pressed_activators.push(key), toggled: m.toggled.update(i, !m.toggled[i]), ..m };
    assert(activation_from(m, false, c, 1, i) == activation_from(p, false || m.layers[i].activation->0.consume, c, 1, i + 1));
    assert forall|j: int| i + 1 <= j < p.layers.len() implies !#[trigger] controlled_by(p, j, c) by {
        assert(!controlled_by(m, j, c));
    }
    lemma_skip(p, false || m.layers[i].activation->0.consume, c, 1, i + 1, p.layers.len() as int);
    assert(on_control(m, c, 1) == p);
    assert forall|j: int| 1 <= j < i implies !#[trigger] controlled_by(p, j, c) by {
        assert(!controlled_by(m, j, c));
    }
    lemma_skip(p, false, c, 1, 1, i);
    lemma_skip(p, false, c, 0, 1, i);
    lemma_skip(p, m.layers[i].activation->0.consume, c, 1, i + 1, p.layers.len() as int);
    lemma_skip(p, m.layers[i].activation->0.consume, c, 0, i + 1, p.layers.len() as int);
    assert(activation_from(p, false, c, 1, i) == activation_from(p, m.layers[i].activation->0.consume, c, 1, i + 1));
    let q = EngineModel { toggled: m.toggled.update(i, !m.toggled[i]), ..m };
    assert(activation_from(p, false, c, 0, i) == activation_from(q, m.layers[i].activation->0.consume, c, 0, i + 1));
    assert forall|j: int| i + 1 <= j < q.layers.len() implies !#[trigger] controlled_by(q, j, c) by {
        assert(!controlled_by(m, j, c));
    }
    lemma_skip(q, m.layers[i].activation->0.consume, c, 0, i + 1, q.layers.len() as int);
}

/// A toggle layer flips once per press of its control: a press flips the
/// layer on or off, a repeat while the control is down changes nothing, a
/// release only lets the control go, and a second press and release bring
/// the engine back to where it was. (Stated for a control that selects one
/// toggle layer and is up.)
pub proof fn law_toggle_layer(m: EngineModel, c: EventCode, i: int)
    requires
        crate::engine::engine_wf(m),
        sole_toggle(m, c, i),
    ensures
        on_control(m, c, 1).toggled[i] == !m.toggled[i],
        on_control(on_control(m, c, 1), c, 1) == on_control(m, c, 1),
        on_control(on_control(m, c, 1), c, 0).toggled[i] == !m.toggled[i],
        on_control(on_control(on_control(on_control(m, c, 1), c, 0), c, 1), c, 0) == m,
{
    lemma_toggle_events(m, c, i);
    let q = on_control(on_control(m, c, 1), c, 0);
    assert(q == EngineModel { toggled: m.toggled.update(i, !m.toggled[i]), ..m });
    assert forall|j: int| #[trigger] controlled_by(q, j, c) implies j == i by {
        assert(controlled_by(m, j, c));
    }
    assert(sole_toggle(q, c, i));
    lemma_toggle_events(q, c, i);
    assert(q.toggled.update(i, !q.toggled[i]) =~= m.toggled);
}

// ---------------------------------------------------------------------------
// Long and double presses

proof fn lemma_pending_only(s: Step, pending: Seq<(EventCode, PendingActivator)>, source: EventCode)
    ensures
        resolution_of(EngineModel { pending, ..s.m }, source) == resolution_of(s.m, source),
{
    lemma_active_below_same(EngineModel { pending, ..s.m }, s.m, s.m.layers.len() as int);
}

/// A double press fires its mapping on the second press, as long as the
/// first is still pending (its time has not run out): press, release and
/// press again do what firing the mapping once does.
pub proof fn law_double_press_fires_once(s: Step, source: EventCode, t0: u64, t1: u64, t2: u64)
    requires
        r_activator(s.m, resolution_of(s.m, source)).kind == ActivatorKind::DoublePress,
        assoc_get(s.m.pending, source) is None,
    ensures
        key_step(key_step(key_step(s, source, 1, t0), source, 0, t1), source, 1, t2)
            == fire_mapping(s, source, resolution_of(s.m, source), t2),
{
    let r = resolution_of(s.m, source);
    let p = PendingActivator {
        resolution: r,
        count: 1,
        required_count: 2,
        due_ms: Some(sat_add(t0, r_activator(s.m, r).delay_ms)),
    };
    lemma_key_index(s.m.pending, source);
    lemma_set_then_remove(s.m.pending, source, p);
    let s1 = Step { m: EngineModel { pending: s.m.pending.push((source, p)), ..s.m }, ..s };
    lemma_pending_only(s, s.m.pending.push((source, p)), source);
    assert(key_step(s, source, 1, t0) == s1);
    assert(key_step(s1, source, 0, t1) == s1);
    assert(Step { m: EngineModel { pending: assoc_remove(s1.m.pending, source), ..s1.m }, ..s1 } == s);
}

proof fn lemma_reset_pushed<K, V>(s: Seq<(K, V)>, k: K, v1: V, v2: V)
    requires
        key_index(s, k) is None,
    ensures
        assoc_get(s.push((k, v1)), k) == Some(v1),
        assoc_set(s.push((k, v1)), k, v2) == s.push((k, v2)),
{
    lemma_set_then_remove(s, k, v1);
    lemma_key_index(s, k);
    let t = s.push((k, v1));
    lemma_key_index(t, k);
    assert(t[s.len() as int].0 == k);
    match key_index(t, k) {
        Some(i) => {
            if i < s.len() {
                assert(t[i] == s[i]);
            }
            assert(t.update(i, (k, v2)) =~= s.push((k, v2)));
        },
        None => {},
    }
}

/// A triple press needs three presses: press, release and press again send
/// nothing and leave the source waiting with two of its three presses
/// counted; a release and a third press then do what firing the mapping
/// once does.
pub proof fn law_triple_press_fires_on_third(
    s: Step,
    source: EventCode,
    t0: u64,
    t1: u64,
    t2: u64,
    t3: u64,
    t4: u64,
)
    requires
        r_activator(s.m, resolution_of(s.m, source)).kind == ActivatorKind::TriplePress,
        assoc_get(s.m.pending, source) is None,
    ensures
        ({
            let s3 = key_step(key_step(key_step(s, source, 1, t0), source, 0, t1), source, 1, t2);
            &&& s3.events == s.events
            &&& s3.commands == s.commands
            &&& assoc_get(s3.m.pending, source) matches Some(p) && p.count == 2 && p.required_count == 3
            &&& key_step(key_step(s3, source, 0, t3), source, 1, t4) == fire_mapping(
                s,
                source,
                resolution_of(s.m, source),
                t4,
            )
        }),
{
    let r = resolution_of(s.m, source);
    let delay = r_activator(s.m, r).delay_ms;
    let p1 = PendingActivator { resolution: r, count: 1, required_count: 3, due_ms: Some(sat_add(t0, delay)) };
    let p2 = PendingActivator { resolution: r, count: 2, required_count: 3, due_ms: Some(sat_add(t2, delay)) };
    lemma_key_index(s.m.pending, source);
    lemma_set_then_remove(s.m.pending, source, p1);
    lemma_reset_pushed(s.m.pending, source, p1, p2);
    lemma_set_then_remove(s.m.pending, source, p2);
    let s1 = Step { m: EngineModel { pending: s.m.pending.push((source, p1)), ..s.m }, ..s };
    lemma_pending_only(s, s.m.pending.push((source, p1)), source);
    assert(key_step(s, source, 1, t0) == s1);
    assert(key_step(s1, source, 0, t1) == s1);
    let s3 = Step { m: EngineModel { pending: s.m.pending.push((source, p2)), ..s.m }, ..s };
    lemma_pending_only(s, s.m.pending.push((source, p2)), source);
    assert(key_step(s1, source, 1, t2) == s3);
    assert(key_step(s3, source, 0, t3) == s3);
    assert(Step { m: EngineModel { pending: assoc_remove(s3.m.pending, source), ..s3.m }, ..s3 } == s);
}

/// Letting a long press go before its time does nothing: the press only
/// starts waiting, and the release forgets it.
pub proof fn law_long_press_released_early(s: Step, source: EventCode, t0: u64, t1: u64)
    requires
        r_activator(s.m, resolution_of(s.m, source)).kind == ActivatorKind::LongPress,
        assoc_get(s.m.pending, source) is None,
    ensures
        key_step(key_step(s, source, 1, t0), source, 0, t1) == s,
{
    let r = resolution_of(s.m, source);
    let p = PendingActivator {
        resolution: r,
        count: 1,
        required_count: 1,
        due_ms: Some(sat_add(t0, r_activator(s.m, r).delay_ms)),
    };
    lemma_key_index(s.m.pending, source);
    lemma_set_then_remove(s.m.pending, source, p);
    lemma_pending_only(s, s.m.pending.push((source, p)), source);
}

/// A long press fires once its delay has passed and not before: with no
/// other activator waiting, the timers at `now` fire the mapping when `now`
/// is at least the press time plus the delay, and leave the press waiting
/// otherwise.
pub proof fn law_long_press_fires_when_due(s: Step, source: EventCode, pressed_at: u64, now: u64)
    requires
        r_activator(s.m, resolution_of(s.m, source)).kind == ActivatorKind::LongPress,
        s.m.pending.len() == 0,
    ensures
        sat_add(pressed_at, r_activator(s.m, resolution_of(s.m, source)).delay_ms) <= now ==>
            due_activators(key_step(s, source, 1, pressed_at), now) == fire_mapping(s, source, resolution_of(s.m, source), now),
        now < sat_add(pressed_at, r_activator(s.m, resolution_of(s.m, source)).delay_ms) ==>
            due_activators(key_step(s, source, 1, pressed_at), now) == key_step(s, source, 1, pressed_at),
{
    let r = resolution_of(s.m, source);
    let p = PendingActivator {
        resolution: r,
        count: 1,
        required_count: 1,
        due_ms: Some(sat_add(pressed_at, r_activator(s.m, r).delay_ms)),
    };
    let ps = s.m.pending.push((source, p));
    assert(ps == seq![(source, p)]);
    lemma_key_index(s.m.pending, source);
    lemma_set_then_remove(s.m.pending, source, p);
    lemma_pending_only(s, ps, source);
    let s1 = Step { m: EngineModel { pending: ps, ..s.m }, ..s };
    assert(key_step(s, source, 1, pressed_at) == s1);
    assert(ps.drop_last() =~= Seq::<(EventCode, PendingActivator)>::empty());
    assert(due_sources(ps.drop_last(), now) =~= Seq::<EventCode>::empty());
    assert(ps.last() == (source, p));
    if sat_add(pressed_at, r_activator(s.m, r).delay_ms) <= now {
        assert(due_sources(ps, now) =~= seq![source]);
        let s2 = Step { m: EngineModel { pending: assoc_remove(ps, source), ..s1.m }, ..s1 };
        assert(s2 == s);
        assert(due_from(s1, seq![source], now, 0) == due_from(fire_mapping(s2, source, r, now), seq![source], now, 1));
    } else {
        assert(due_sources(ps, now) =~= Seq::<EventCode>::empty());
    }
}

} // verus!
