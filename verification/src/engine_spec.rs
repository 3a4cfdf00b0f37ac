//! The remap engine's state and, as spec functions, what each input does to
//! it: which events the virtual device gets, which commands are launched,
//! and how layers, held keys, macros, turbo and multi-press activators
//! evolve. Time is given in milliseconds by the caller.

use vstd::prelude::*;
use crate::event_code::{output_supports, EventCode, EventKind};
use crate::profiles::{
    ActivatorKind, ActivatorSettings, CommandAction, CommandSettingsModel, LayerActivationMode,
    LayerActivationModel, MacroEventKind, MacroEventModel, MacroMode, MacroSettingsModel,
    MappingAction, MappingModel, MACRO_TAP_RELEASE_MS,
};

verus! {

/// An event sent to the virtual device.
#[derive(Clone, Copy, Debug, PartialEq, Eq, Structural)]
pub struct OutputEvent {
    pub code: EventCode,
    pub value: i32,
}

/// Which mapping a source resolved to: a mapping of a layer (by the layer's
/// index and the mapping's index in that layer's table), or none, in which
/// case the source passes through to itself.
#[derive(Clone, Copy, Debug, PartialEq, Eq, Structural)]
pub enum Resolution {
    Mapped { layer: usize, index: usize },
    Unmapped,
}

/// A long or multi-press activator waiting to fire.
#[derive(Clone, Copy, Debug, PartialEq, Eq, Structural)]
pub struct PendingActivator {
    pub resolution: Resolution,
    pub count: u8,
    pub required_count: u8,
    pub due_ms: Option<u64>,
}

/// Auto-fire of a held button.
#[derive(Clone, Copy, Debug, PartialEq, Eq, Structural)]
pub struct TurboState {
    pub target: EventCode,
    pub interval_ms: u64,
    pub next_toggle_ms: u64,
    pub output_down: bool,
}

/// What a queued macro step does when it is due.
#[derive(Clone, Copy, Debug, PartialEq, Eq, Structural)]
pub enum QueuedStep {
    Emit { event: EventCode, value: i32 },
    /// Stops all queued and held macro output.
    Cancel,
}

/// A macro step waiting for its time.
#[derive(Clone, Copy, Debug, PartialEq, Eq, Structural)]
pub struct ScheduledMacroEvent {
    pub due_ms: u64,
    pub step: QueuedStep,
}

/// A layer as the engine keeps it: its activation and its mappings by
/// source.
pub struct RuleLayerModel {
    pub activation: Option<LayerActivationModel>,
    pub mappings: Seq<(EventCode, MappingModel)>,
}

/// The engine's state.
pub struct EngineModel {
    pub layers: Seq<RuleLayerModel>,
    pub passthrough: bool,
    pub held: Seq<bool>,
    pub toggled: Seq<bool>,
    pub pressed_activators: Seq<(usize, EventCode)>,
    pub key_targets: Seq<(EventCode, EventCode)>,
    pub macro_sources: Seq<EventCode>,
    pub command_sources: Seq<EventCode>,
    pub held_releases: Seq<(EventCode, Resolution)>,
    pub queue: Seq<ScheduledMacroEvent>,
    pub output_keys: Seq<EventCode>,
    pub output_axes: Seq<(EventCode, i32)>,
    pub turbo: Seq<(EventCode, TurboState)>,
    pub pending: Seq<(EventCode, PendingActivator)>,
    pub stop_requested: bool,
}

/// The state together with what has been sent so far: events for the
/// virtual device and command lines to launch.
pub struct Step {
    pub m: EngineModel,
    pub events: Seq<OutputEvent>,
    pub commands: Seq<Seq<Seq<char>>>,
}

// ---------------------------------------------------------------------------
// Lists used as maps and sets

/// The index of the first entry with key `k`.
pub open spec fn key_index<K, V>(s: Seq<(K, V)>, k: K) -> Option<int>
    decreases s.len(),
{
    if s.len() == 0 {
        None
    } else if s[0].0 == k {
        Some(0)
    } else {
        match key_index(s.drop_first(), k) {
            Some(i) => Some(i + 1),
            None => None,
        }
    }
}

/// The value of the first entry with key `k`.
pub open spec fn assoc_get<K, V>(s: Seq<(K, V)>, k: K) -> Option<V> {
    match key_index(s, k) {
        Some(i) => Some(s[i].1),
        None => None,
    }
}

/// The list with `k` set to `v`: the first entry with key `k` replaced, or a
/// new entry at the end.
pub open spec fn assoc_set<K, V>(s: Seq<(K, V)>, k: K, v: V) -> Seq<(K, V)> {
    match key_index(s, k) {
        Some(i) => s.update(i, (k, v)),
        None => s.push((k, v)),
    }
}

/// The list without the first entry with key `k`.
pub open spec fn assoc_remove<K, V>(s: Seq<(K, V)>, k: K) -> Seq<(K, V)> {
    match key_index(s, k) {
        Some(i) => s.remove(i),
        None => s,
    }
}

/// The index of the first occurrence of `k`.
pub open spec fn item_index<K>(s: Seq<K>, k: K) -> Option<int>
    decreases s.len(),
{
    if s.len() == 0 {
        None
    } else if s[0] == k {
        Some(0)
    } else {
        match item_index(s.drop_first(), k) {
            Some(i) => Some(i + 1),
            None => None,
        }
    }
}

/// The set with `k` added (at the end) unless it holds `k`.
pub open spec fn set_insert<K>(s: Seq<K>, k: K) -> Seq<K> {
    if item_index(s, k) is Some {
        s
    } else {
        s.push(k)
    }
}

/// The set without (the first occurrence of) `k`.
pub open spec fn set_remove<K>(s: Seq<K>, k: K) -> Seq<K> {
    match item_index(s, k) {
        Some(i) => s.remove(i),
        None => s,
    }
}

pub proof fn lemma_key_index<K, V>(s: Seq<(K, V)>, k: K)
    ensures
        key_index(s, k) matches Some(i) ==> 0 <= i < s.len() && s[i].0 == k && forall|j: int| 0 <= j < i ==> s[j].0 != k,
        key_index(s, k) is None ==> forall|j: int| 0 <= j < s.len() ==> s[j].0 != k,
    decreases s.len(),
{
    if s.len() > 0 && s[0].0 != k {
        lemma_key_index(s.drop_first(), k);
        assert forall|j: int| 1 <= j < s.len() implies s[j] == s.drop_first()[j - 1] by {}
    }
}

pub proof fn lemma_item_index<K>(s: Seq<K>, k: K)
    ensures
        item_index(s, k) matches Some(i) ==> 0 <= i < s.len() && s[i] == k && forall|j: int| 0 <= j < i ==> s[j] != k,
        item_index(s, k) is None ==> forall|j: int| 0 <= j < s.len() ==> s[j] != k,
    decreases s.len(),
{
    if s.len() > 0 && s[0] != k {
        lemma_item_index(s.drop_first(), k);
        assert forall|j: int| 1 <= j < s.len() implies s[j] == s.drop_first()[j - 1] by {}
    }
}

/// `a + b`, or `u64::MAX` when that does not fit.
pub open spec fn sat_add(a: u64, b: u64) -> u64 {
    if a + b > u64::MAX {
        u64::MAX
    } else {
        (a + b) as u64
    }
}

// ---------------------------------------------------------------------------
// Layers and resolution

/// The highest layer below `n` (other than the main layer) that is held or
/// toggled on, else the main layer.
pub open spec fn active_below(m: EngineModel, n: int) -> int
    decreases n,
{
    if n <= 1 {
        0
    } else if m.held[n - 1] || m.toggled[n - 1] {
        n - 1
    } else {
        active_below(m, n - 1)
    }
}

/// The layer whose mappings apply: the highest active shift layer, else the
/// main layer.
pub open spec fn active_layer(m: EngineModel) -> int {
    active_below(m, m.layers.len() as int)
}

/// The mapping `source` resolves to in the active layer.
pub open spec fn resolution_of(m: EngineModel, source: EventCode) -> Resolution {
    let l = active_layer(m);
    match key_index(m.layers[l].mappings, source) {
        Some(i) => Resolution::Mapped { layer: l as usize, index: i as usize },
        None => Resolution::Unmapped,
    }
}

pub open spec fn mapping_at(m: EngineModel, r: Resolution) -> Option<MappingModel> {
    match r {
        Resolution::Mapped { layer, index } => Some(m.layers[layer as int].mappings[index as int].1),
        Resolution::Unmapped => None,
    }
}

/// A resolution's action (an unmapped source is remapped to itself).
pub open spec fn r_action(m: EngineModel, r: Resolution) -> MappingAction {
    match mapping_at(m, r) {
        Some(mp) => mp.action,
        None => MappingAction::Remap,
    }
}

/// A resolution's target.
pub open spec fn r_target(m: EngineModel, r: Resolution, source: EventCode) -> EventCode {
    match mapping_at(m, r) {
        Some(mp) => mp.to,
        None => source,
    }
}

/// A resolution's activator (press for an unmapped source).
pub open spec fn r_activator(m: EngineModel, r: Resolution) -> ActivatorSettings {
    match mapping_at(m, r) {
        Some(mp) => mp.activator,
        None => ActivatorSettings { kind: ActivatorKind::Press, delay_ms: 0 },
    }
}

pub open spec fn r_turbo(m: EngineModel, r: Resolution) -> Option<u64> {
    match mapping_at(m, r) {
        Some(mp) => match mp.turbo {
            Some(t) => Some(t.interval_ms),
            None => None,
        },
        None => None,
    }
}

pub open spec fn r_macro(m: EngineModel, r: Resolution) -> Option<MacroSettingsModel> {
    match mapping_at(m, r) {
        Some(mp) => mp.macro_settings,
        None => None,
    }
}

pub open spec fn r_command(m: EngineModel, r: Resolution) -> Option<CommandSettingsModel> {
    match mapping_at(m, r) {
        Some(mp) => mp.command,
        None => None,
    }
}

/// Whether a resolution's plain remapping reaches the virtual device: the
/// source is mapped or pass-through is on, and the device can emit the
/// target.
pub open spec fn r_emits(m: EngineModel, r: Resolution, source: EventCode) -> bool {
    (m.passthrough || r is Mapped) && output_supports(r_target(m, r, source))
}

pub open spec fn emit(s: Step, code: EventCode, value: i32) -> Step {
    Step { events: s.events.push(OutputEvent { code, value }), ..s }
}

pub open spec fn with_m(s: Step, m: EngineModel) -> Step {
    Step { m, ..s }
}

// ---------------------------------------------------------------------------
// Layer activation

/// Layer activation from layer `i` on: each shift layer whose control is
/// `source` is held while the value is nonzero, or toggled on each press
/// (a press that was already down does not toggle again); the event is
/// consumed when any such layer consumes its control.
pub open spec fn activation_from(m: EngineModel, consumed: bool, source: EventCode, value: i32, i: int) -> (EngineModel, bool)
    decreases m.layers.len() - i,
{
    if i < 1 || i >= m.layers.len() {
        (m, consumed)
    } else {
        let next: (EngineModel, bool) = match m.layers[i].activation {
            Some(a) => if a.control == source {
                let c2 = consumed || a.consume;
                match a.mode {
                    LayerActivationMode::Hold => (EngineModel { held: m.held.update(i, value != 0), ..m }, c2),
                    LayerActivationMode::Toggle => {
                        let key = (i as usize, source);
                        if value == 0 {
                            (EngineModel { pressed_activators: set_remove(m.pressed_activators, key), ..m }, c2)
                        } else if item_index(m.pressed_activators, key) is None {
                            (
                                EngineModel {
                                    pressed_activators: m.pressed_activators.push(key),
                                    toggled: m.toggled.update(i, !m.toggled[i]),
                                    ..m
                                },
                                c2,
                            )
                        } else {
                            (m, c2)
                        }
                    },
                }
            } else {
                (m, consumed)
            },
            None => (m, consumed),
        };
        activation_from(next.0, next.1, source, value, i + 1)
    }
}

// ---------------------------------------------------------------------------
// Macros

/// Where a macro step due at `due` goes in the queue: before the first step
/// due strictly later, so steps due at the same time keep their order.
pub open spec fn queue_position(q: Seq<ScheduledMacroEvent>, due: u64) -> int
    decreases q.len(),
{
    if q.len() == 0 {
        0
    } else if due < q[0].due_ms {
        0
    } else {
        1 + queue_position(q.drop_first(), due)
    }
}

/// The queue with `x` in its place.
pub open spec fn queued(q: Seq<ScheduledMacroEvent>, x: ScheduledMacroEvent) -> Seq<ScheduledMacroEvent> {
    q.insert(queue_position(q, x.due_ms), x)
}

/// Queues a macro's steps from step `k` on, `offset` milliseconds after
/// `now`: a pause moves the offset on, a tap presses and, 20 ms later,
/// releases its target, a cancel is queued as such, other steps set their
/// target's value.
pub open spec fn enqueue_from(q: Seq<ScheduledMacroEvent>, events: Seq<MacroEventModel>, now: u64, offset: u64, k: int) -> Seq<ScheduledMacroEvent>
    decreases events.len() - k,
{
    if k < 0 || k >= events.len() {
        q
    } else {
        let e = events[k];
        if e.kind == MacroEventKind::Pause {
            enqueue_from(q, events, now, sat_add(offset, e.pause_ms), k + 1)
        } else if e.kind == MacroEventKind::Tap {
            match e.code {
                Some(c) => {
                    let q1 = queued(q, ScheduledMacroEvent { due_ms: sat_add(now, offset), step: QueuedStep::Emit { event: c, value: 1 } });
                    let off2 = sat_add(offset, MACRO_TAP_RELEASE_MS);
                    let q2 = queued(q1, ScheduledMacroEvent { due_ms: sat_add(now, off2), step: QueuedStep::Emit { event: c, value: 0 } });
                    enqueue_from(q2, events, now, off2, k + 1)
                },
                None => enqueue_from(q, events, now, offset, k + 1),
            }
        } else if e.kind == MacroEventKind::Cancel {
            enqueue_from(
                queued(q, ScheduledMacroEvent { due_ms: sat_add(now, offset), step: QueuedStep::Cancel }),
                events,
                now,
                offset,
                k + 1,
            )
        } else {
            match e.code {
                Some(c) => enqueue_from(
                    queued(q, ScheduledMacroEvent { due_ms: sat_add(now, offset), step: QueuedStep::Emit { event: c, value: e.value } }),
                    events,
                    now,
                    offset,
                    k + 1,
                ),
                None => enqueue_from(q, events, now, offset, k + 1),
            }
        }
    }
}

/// Queues a macro's steps to run from `now` on.
pub open spec fn enqueue(s: Step, events: Seq<MacroEventModel>, now: u64) -> Step {
    with_m(s, EngineModel { queue: enqueue_from(s.m.queue, events, now, 0, 0), ..s.m })
}

/// Whether some held key is mapped to `key`.
pub open spec fn is_key_target(targets: Seq<(EventCode, EventCode)>, key: EventCode) -> bool {
    exists|i: int| 0 <= i < targets.len() && targets[i].1 == key
}

/// Release events for the keys macros hold, except keys a held mapping also
/// holds.
pub open spec fn key_releases(keys: Seq<EventCode>, targets: Seq<(EventCode, EventCode)>) -> Seq<OutputEvent>
    decreases keys.len(),
{
    if keys.len() == 0 {
        Seq::empty()
    } else {
        let prev = key_releases(keys.drop_last(), targets);
        if is_key_target(targets, keys.last()) {
            prev
        } else {
            prev.push(OutputEvent { code: keys.last(), value: 0 })
        }
    }
}

/// Recentering events for the axes macros left away from 0.
pub open spec fn axis_releases(axes: Seq<(EventCode, i32)>) -> Seq<OutputEvent>
    decreases axes.len(),
{
    if axes.len() == 0 {
        Seq::empty()
    } else {
        let prev = axis_releases(axes.drop_last());
        if axes.last().1 != 0 {
            prev.push(OutputEvent { code: axes.last().0, value: 0 })
        } else {
            prev
        }
    }
}

/// Stops all macros: the queue is emptied, held macros forget their release
/// steps, and every key and axis macro output holds is released (keys that
/// a held mapping also holds stay down).
pub open spec fn stop_macros(s: Step) -> Step {
    Step {
        m: EngineModel {
            queue: Seq::empty(),
            macro_sources: Seq::empty(),
            held_releases: Seq::empty(),
            output_keys: Seq::empty(),
            output_axes: Seq::empty(),
            ..s.m
        },
        events: s.events + key_releases(s.m.output_keys, s.m.key_targets) + axis_releases(s.m.output_axes),
        commands: s.commands,
    }
}

/// What the engine remembers of a macro output it sent: a key is held while
/// its value is nonzero, an axis keeps its nonzero value.
pub open spec fn recorded(m: EngineModel, event: EventCode, value: i32) -> EngineModel {
    match event.kind {
        EventKind::Key => if value == 0 {
            EngineModel { output_keys: set_remove(m.output_keys, event), ..m }
        } else {
            EngineModel { output_keys: set_insert(m.output_keys, event), ..m }
        },
        EventKind::Absolute => if value == 0 {
            EngineModel { output_axes: assoc_remove(m.output_axes, event), ..m }
        } else {
            EngineModel { output_axes: assoc_set(m.output_axes, event, value), ..m }
        },
        EventKind::Relative => m,
    }
}

// ---------------------------------------------------------------------------
// Commands and activated mappings

/// Runs a command: stopping macros, launching a command line, or asking the
/// remap to turn off.
pub open spec fn run_command(s: Step, c: CommandSettingsModel) -> Step {
    match c.action {
        CommandAction::StopMacros => stop_macros(s),
        CommandAction::RunCommand => Step { commands: s.commands.push(c.command_line), ..s },
        CommandAction::RemapOff => with_m(s, EngineModel { stop_requested: true, ..s.m }),
    }
}

/// Fires a long, release or multi-press mapping once: a macro runs its
/// steps, a command runs, a plain remapping taps its target (when it reaches
/// the device); the source's pending activator is dropped.
pub open spec fn fire_mapping(s: Step, source: EventCode, r: Resolution, now: u64) -> Step {
    match r_action(s.m, r) {
        MappingAction::Macro => {
            let s1 = match r_macro(s.m, r) {
                Some(ms) => enqueue(s, ms.events, now),
                None => s,
            };
            with_m(s1, EngineModel { pending: assoc_remove(s1.m.pending, source), ..s1.m })
        },
        MappingAction::Command => {
            let s1 = match r_command(s.m, r) {
                Some(c) => run_command(s, c),
                None => s,
            };
            with_m(s1, EngineModel { pending: assoc_remove(s1.m.pending, source), ..s1.m })
        },
        MappingAction::Disable => with_m(s, EngineModel { pending: assoc_remove(s.m.pending, source), ..s.m }),
        MappingAction::Remap => {
            if !r_emits(s.m, r, source) {
                s
            } else {
                let t = r_target(s.m, r, source);
                let s1 = emit(emit(s, t, 1), t, 0);
                with_m(s1, EngineModel { pending: assoc_remove(s1.m.pending, source), ..s1.m })
            }
        },
    }
}

/// A key event for a mapping with a release, long or multi-press activator.
pub open spec fn activated_key(s: Step, source: EventCode, value: i32, r: Resolution, now: u64) -> Step {
    let kind = r_activator(s.m, r).kind;
    let delay = r_activator(s.m, r).delay_ms;
    let pending = s.m.pending;
    if kind == ActivatorKind::Release {
        if value == 0 {
            match assoc_get(pending, source) {
                Some(p) => fire_mapping(
                    with_m(s, EngineModel { pending: assoc_remove(pending, source), ..s.m }),
                    source,
                    p.resolution,
                    now,
                ),
                None => s,
            }
        } else {
            with_m(
                s,
                EngineModel {
                    pending: assoc_set(
                        pending,
                        source,
                        PendingActivator { resolution: r, count: 1, required_count: 1, due_ms: None },
                    ),
                    ..s.m
                },
            )
        }
    } else if kind == ActivatorKind::LongPress {
        if value == 0 {
            with_m(s, EngineModel { pending: assoc_remove(pending, source), ..s.m })
        } else if assoc_get(pending, source) is Some {
            s
        } else {
            with_m(
                s,
                EngineModel {
                    pending: pending.push(
                        (
                            source,
                            PendingActivator {
                                resolution: r,
                                count: 1,
                                required_count: 1,
                                due_ms: Some(sat_add(now, delay)),
                            },
                        ),
                    ),
                    ..s.m
                },
            )
        }
    } else if kind == ActivatorKind::DoublePress || kind == ActivatorKind::TriplePress {
        if value == 0 {
            s
        } else {
            let required: u8 = if kind == ActivatorKind::DoublePress { 2 } else { 3 };
            let due = sat_add(now, delay);
            match assoc_get(pending, source) {
                Some(p) => {
                    let count: u8 = if r_activator(s.m, p.resolution).kind == kind {
                        if p.count == 255 { 255 } else { (p.count + 1) as u8 }
                    } else {
                        1
                    };
                    let np = PendingActivator { resolution: r, count, required_count: required, due_ms: Some(due) };
                    if count >= required {
                        fire_mapping(with_m(s, EngineModel { pending: assoc_remove(pending, source), ..s.m }), source, r, now)
                    } else {
                        with_m(s, EngineModel { pending: assoc_set(pending, source, np), ..s.m })
                    }
                },
                None => with_m(
                    s,
                    EngineModel {
                        pending: pending.push(
                            (source, PendingActivator { resolution: r, count: 1, required_count: required, due_ms: Some(due) }),
                        ),
                        ..s.m
                    },
                ),
            }
        }
    } else {
        s
    }
}

/// Pressing a source with a press activator: a macro starts (a hold macro
/// remembers its release steps), a command runs, a plain remapping presses
/// its target (starting turbo when it has one).
pub open spec fn press_action(s: Step, source: EventCode, r: Resolution, now: u64) -> Step {
    let m = s.m;
    match r_action(m, r) {
        MappingAction::Macro => match r_macro(m, r) {
            Some(ms) => {
                let s1 = with_m(s, EngineModel { macro_sources: set_insert(m.macro_sources, source), ..m });
                let s2 = enqueue(s1, ms.events, now);
                if ms.mode == MacroMode::Hold {
                    with_m(s2, EngineModel { held_releases: assoc_set(s2.m.held_releases, source, r), ..s2.m })
                } else {
                    s2
                }
            },
            None => s,
        },
        MappingAction::Command => match r_command(m, r) {
            Some(c) => run_command(
                with_m(s, EngineModel { command_sources: set_insert(m.command_sources, source), ..m }),
                c,
            ),
            None => s,
        },
        MappingAction::Disable => s,
        MappingAction::Remap => {
            if !r_emits(m, r, source) {
                s
            } else {
                let t = r_target(m, r, source);
                let s1 = emit(with_m(s, EngineModel { key_targets: assoc_set(m.key_targets, source, t), ..m }), t, 1);
                match r_turbo(m, r) {
                    Some(iv) => with_m(
                        s1,
                        EngineModel {
                            turbo: assoc_set(
                                s1.m.turbo,
                                source,
                                TurboState { target: t, interval_ms: iv, next_toggle_ms: sat_add(now, iv), output_down: true },
                            ),
                            ..s1.m
                        },
                    ),
                    None => s1,
                }
            }
        },
    }
}

/// Releasing a source with a press activator: a command or macro source is
/// let go (a hold macro runs its release steps); a held remapping releases
/// its target (unless turbo left it up); an unheld plain remapping sends the
/// release through.
pub open spec fn release_action(s: Step, source: EventCode, r: Resolution, now: u64) -> Step {
    let m = s.m;
    if item_index(m.command_sources, source) is Some {
        with_m(s, EngineModel { command_sources: set_remove(m.command_sources, source), ..m })
    } else if item_index(m.macro_sources, source) is Some {
        let s1 = with_m(s, EngineModel { macro_sources: set_remove(m.macro_sources, source), ..m });
        match assoc_get(s1.m.held_releases, source) {
            Some(hr) => {
                let s2 = with_m(s1, EngineModel { held_releases: assoc_remove(s1.m.held_releases, source), ..s1.m });
                match r_macro(s2.m, hr) {
                    Some(ms) => enqueue(s2, ms.release_events, now),
                    None => s2,
                }
            },
            None => s1,
        }
    } else {
        match assoc_get(m.key_targets, source) {
            None => if r_action(m, r) == MappingAction::Remap && r_emits(m, r, source) {
                emit(s, r_target(m, r, source), 0)
            } else {
                s
            },
            Some(target) => {
                let s1 = with_m(s, EngineModel { key_targets: assoc_remove(m.key_targets, source), ..m });
                match assoc_get(s1.m.turbo, source) {
                    Some(t) => {
                        let s2 = with_m(s1, EngineModel { turbo: assoc_remove(s1.m.turbo, source), ..s1.m });
                        if t.output_down {
                            emit(s2, target, 0)
                        } else {
                            s2
                        }
                    },
                    None => emit(s1, target, 0),
                }
            },
        }
    }
}

/// A key event (a button of the source device) at time `now`.
pub open spec fn key_step(s: Step, source: EventCode, value: i32, now: u64) -> Step {
    let r = resolution_of(s.m, source);
    if r_activator(s.m, r).kind != ActivatorKind::Press {
        activated_key(s, source, value, r, now)
    } else if value == 0 {
        release_action(s, source, r, now)
    } else if assoc_get(s.m.key_targets, source) is Some || item_index(s.m.macro_sources, source) is Some
        || item_index(s.m.command_sources, source) is Some {
        s
    } else {
        press_action(s, source, r, now)
    }
}

// ---------------------------------------------------------------------------
// Timers

/// The sources whose activator is due at `now`, in order.
pub open spec fn due_sources(pending: Seq<(EventCode, PendingActivator)>, now: u64) -> Seq<EventCode>
    decreases pending.len(),
{
    if pending.len() == 0 {
        Seq::empty()
    } else {
        let prev = due_sources(pending.drop_last(), now);
        match pending.last().1.due_ms {
            Some(d) => if now >= d {
                prev.push(pending.last().0)
            } else {
                prev
            },
            None => prev,
        }
    }
}

/// Handles the due sources from `k` on: each still pending is dropped, and a
/// long press fires.
pub open spec fn due_from(s: Step, sources: Seq<EventCode>, now: u64, k: int) -> Step
    decreases sources.len() - k,
{
    if k < 0 || k >= sources.len() {
        s
    } else {
        let source = sources[k];
        let next = match assoc_get(s.m.pending, source) {
            Some(p) => {
                let s1 = with_m(s, EngineModel { pending: assoc_remove(s.m.pending, source), ..s.m });
                if r_activator(s1.m, p.resolution).kind == ActivatorKind::LongPress {
                    fire_mapping(s1, source, p.resolution, now)
                } else {
                    s1
                }
            },
            None => s,
        };
        due_from(next, sources, now, k + 1)
    }
}

/// Fires the activators due at `now`.
pub open spec fn due_activators(s: Step, now: u64) -> Step {
    due_from(s, due_sources(s.m.pending, now), now, 0)
}

/// Turbo from entry `k` on: each due state flips its target and schedules
/// the next flip one interval later.
pub open spec fn turbo_from(s: Step, now: u64, k: int) -> Step
    decreases s.m.turbo.len() - k,
{
    if k < 0 || k >= s.m.turbo.len() {
        s
    } else {
        let (source, t) = s.m.turbo[k];
        let next = if now < t.next_toggle_ms {
            s
        } else {
            let down = !t.output_down;
            let nt = TurboState { output_down: down, next_toggle_ms: sat_add(now, t.interval_ms), ..t };
            emit(with_m(s, EngineModel { turbo: s.m.turbo.update(k, (source, nt)), ..s.m }), t.target, if down { 1 } else { 0 })
        };
        turbo_from(next, now, k + 1)
    }
}

/// Takes the first queued macro step when it is due at `now`. An output
/// step is handed back for the caller to send (see
/// `RemapEngine::emit_macro_output`); a cancel stops all macros.
pub open spec fn macro_due(s: Step, now: u64) -> (Step, Option<(EventCode, i32)>) {
    if s.m.queue.len() == 0 || now < s.m.queue[0].due_ms {
        (s, None)
    } else {
        let s1 = with_m(s, EngineModel { queue: s.m.queue.drop_first(), ..s.m });
        match s.m.queue[0].step {
            QueuedStep::Emit { event, value } => (s1, Some((event, value))),
            QueuedStep::Cancel => (stop_macros(s1), None),
        }
    }
}

// ---------------------------------------------------------------------------
// Absolute axes

/// Where an absolute axis event of the source goes once no stick transform
/// has taken it.
#[derive(Clone, Copy, Debug, PartialEq, Eq, Structural)]
pub enum AbsoluteRoute {
    /// Nothing reaches the virtual device.
    Drop,
    /// The axis drives a relative target (pointer motion).
    Relative { target: EventCode },
    /// The (tuned) value goes to the target axis.
    Emit { target: EventCode },
}

/// What the engine decides for an absolute axis event of a source.
#[derive(Clone, Copy, Debug, PartialEq, Eq, Structural)]
pub struct AbsolutePlan {
    /// The resolved target, which analog zones and tuning are keyed by.
    pub target: EventCode,
    /// Whether a stick transform may take the event: a plain remapping to
    /// an absolute target.
    pub transformable: bool,
    pub route: AbsoluteRoute,
}

/// The plan for an absolute axis event of `source` in state `m`.
pub open spec fn absolute_plan_of(m: EngineModel, source: EventCode) -> AbsolutePlan {
    let r = resolution_of(m, source);
    let target = r_target(m, r, source);
    let remap = r_action(m, r) == MappingAction::Remap;
    AbsolutePlan {
        target,
        transformable: remap && target.kind == EventKind::Absolute,
        route: if !remap || !r_emits(m, r, source) {
            AbsoluteRoute::Drop
        } else if target.kind == EventKind::Relative {
            AbsoluteRoute::Relative { target }
        } else {
            AbsoluteRoute::Emit { target }
        },
    }
}

} // verus!
