//! The remap engine: the decisions of a running remap. The caller reads the
//! source device, hands each event to the engine with the current time in
//! milliseconds, and sends the events the engine produces to the virtual
//! device (see [`crate::engine_spec`] for what each step does).

use vstd::prelude::*;
use crate::engine_spec::{
    OutputEvent, Resolution, PendingActivator, TurboState, QueuedStep, ScheduledMacroEvent, RuleLayerModel, EngineModel, Step, key_index, assoc_get, assoc_set, assoc_remove, item_index, set_insert, set_remove, lemma_key_index, lemma_item_index, sat_add, active_below, active_layer, resolution_of, mapping_at, r_action, r_target, r_activator, r_turbo, r_macro, r_command, r_emits, emit, with_m, activation_from, queue_position, queued, enqueue_from, enqueue, is_key_target, key_releases, axis_releases, stop_macros, recorded, run_command, fire_mapping, activated_key, press_action, release_action, key_step, due_sources, due_from, due_activators, turbo_from, macro_due, AbsoluteRoute, AbsolutePlan, absolute_plan_of,
};
use crate::event_code::{virtual_output_supports, EventCode, EventKind};
use crate::profiles::{
    activation_view, copy_string_vec, mappings_view, strings_view, ActivatorKind, CommandAction,
    Layer, LayerActivation, LayerActivationMode, MacroEvent, MacroEventKind, MacroMode, Mapping,
    MappingAction, MappingModel, Profile, MACRO_TAP_RELEASE_MS,
};

verus! {

/// A layer as the engine keeps it.
pub struct EngineLayer {
    activation: Option<LayerActivation>,
    mappings: Vec<(EventCode, Mapping)>,
}

/// What the engine asks its caller to do: events to send to the virtual
/// device and command lines to launch, in order.
pub struct EngineOutput {
    pub events: Vec<OutputEvent>,
    pub commands: Vec<Vec<String>>,
}

pub open spec fn commands_view(v: Seq<Vec<String>>) -> Seq<Seq<Seq<char>>> {
    v.map_values(|c: Vec<String>| strings_view(c@))
}

/// The state of a running remap.
pub struct RemapEngine {
    layers: Vec<EngineLayer>,
    passthrough: bool,
    held: Vec<bool>,
    toggled: Vec<bool>,
    pressed_activators: Vec<(usize, EventCode)>,
    key_targets: Vec<(EventCode, EventCode)>,
    macro_sources: Vec<EventCode>,
    command_sources: Vec<EventCode>,
    held_releases: Vec<(EventCode, Resolution)>,
    queue: Vec<ScheduledMacroEvent>,
    output_keys: Vec<EventCode>,
    output_axes: Vec<(EventCode, i32)>,
    turbo: Vec<(EventCode, TurboState)>,
    pending: Vec<(EventCode, PendingActivator)>,
    stop_requested: bool,
}

pub open spec fn table_view(v: Seq<(EventCode, Mapping)>) -> Seq<(EventCode, MappingModel)> {
    v.map_values(|p: (EventCode, Mapping)| (p.0, p.1@))
}

pub closed spec fn layer_view(l: EngineLayer) -> RuleLayerModel {
    RuleLayerModel { activation: activation_view(l.activation), mappings: table_view(l.mappings@) }
}

/// A resolution names an existing mapping.
pub open spec fn valid_resolution(layers: Seq<RuleLayerModel>, r: Resolution) -> bool {
    match r {
        Resolution::Mapped { layer, index } => layer < layers.len() && index < layers[layer as int].mappings.len(),
        Resolution::Unmapped => true,
    }
}

/// The engine's invariant: a main layer, one held and one toggled flag per
/// layer, and only existing mappings remembered.
pub open spec fn engine_wf(m: EngineModel) -> bool {
    &&& m.layers.len() >= 1
    &&& m.held.len() == m.layers.len()
    &&& m.toggled.len() == m.layers.len()
    &&& forall|i: int| 0 <= i < m.pending.len() ==> valid_resolution(m.layers, (#[trigger] m.pending[i]).1.resolution)
    &&& forall|i: int| 0 <= i < m.held_releases.len() ==> valid_resolution(m.layers, (#[trigger] m.held_releases[i]).1)
}

impl View for RemapEngine {
    type V = EngineModel;

    closed spec fn view(&self) -> EngineModel {
        EngineModel {
            layers: self.layers@.map_values(|l: EngineLayer| layer_view(l)),
            passthrough: self.passthrough,
            held: self.held@,
            toggled: self.toggled@,
            pressed_activators: self.pressed_activators@,
            key_targets: self.key_targets@,
            macro_sources: self.macro_sources@,
            command_sources: self.command_sources@,
            held_releases: self.held_releases@,
            queue: self.queue@,
            output_keys: self.output_keys@,
            output_axes: self.output_axes@,
            turbo: self.turbo@,
            pending: self.pending@,
            stop_requested: self.stop_requested,
        }
    }
}

/// The engine and its output as one step of the model.
pub open spec fn step_of(e: RemapEngine, o: EngineOutput) -> Step {
    Step { m: e@, events: o.events@, commands: commands_view(o.commands@) }
}

// ---------------------------------------------------------------------------
// Lists used as maps and sets

fn find_key<V>(v: &Vec<(EventCode, V)>, k: EventCode) -> (r: Option<usize>)
    ensures
        match r {
            Some(i) => key_index(v@, k) == Some(i as int),
            None => key_index(v@, k) is None,
        },
{
    let mut i: usize = 0;
    while i < v.len()
        invariant
            i <= v@.len(),
            forall|j: int| 0 <= j < i ==> v@[j].0 != k,
        decreases v@.len() - i,
    {
        if v[i].0 == k {
            proof {
                lemma_key_index(v@, k);
                match key_index(v@, k) {
                    Some(j) => {
                        if j < i {
                            assert(v@[j].0 != k);
                        } else if j > i {
                            assert(v@[i as int].0 != k);
                        }
                    },
                    None => {
                        assert(v@[i as int].0 != k);
                    },
                }
            }
            return Some(i);
        }
        i = i + 1;
    }
    proof {
        lemma_key_index(v@, k);
        if key_index(v@, k) is Some {
            let j = key_index(v@, k)->0;
            assert(v@[j].0 == k);
        }
    }
    None
}

fn find_item(v: &Vec<EventCode>, k: EventCode) -> (r: Option<usize>)
    ensures
        match r {
            Some(i) => item_index(v@, k) == Some(i as int),
            None => item_index(v@, k) is None,
        },
{
    let mut i: usize = 0;
    while i < v.len()
        invariant
            i <= v@.len(),
            forall|j: int| 0 <= j < i ==> v@[j] != k,
        decreases v@.len() - i,
    {
        if v[i] == k {
            proof {
                lemma_item_index(v@, k);
                match item_index(v@, k) {
                    Some(j) => {
                        if j < i {
                            assert(v@[j] != k);
                        } else if j > i {
                            assert(v@[i as int] != k);
                        }
                    },
                    None => {
                        assert(v@[i as int] != k);
                    },
                }
            }
            return Some(i);
        }
        i = i + 1;
    }
    proof {
        lemma_item_index(v@, k);
        if item_index(v@, k) is Some {
            let j = item_index(v@, k)->0;
            assert(v@[j] == k);
        }
    }
    None
}

fn find_pair(v: &Vec<(usize, EventCode)>, k: (usize, EventCode)) -> (r: Option<usize>)
    ensures
        match r {
            Some(i) => item_index(v@, k) == Some(i as int),
            None => item_index(v@, k) is None,
        },
{
    let mut i: usize = 0;
    while i < v.len()
        invariant
            i <= v@.len(),
            forall|j: int| 0 <= j < i ==> v@[j] != k,
        decreases v@.len() - i,
    {
        if v[i].0 == k.0 && v[i].1 == k.1 {
            proof {
                lemma_item_index(v@, k);
                match item_index(v@, k) {
                    Some(j) => {
                        if j < i {
                            assert(v@[j] != k);
                        } else if j > i {
                            assert(v@[i as int] != k);
                        }
                    },
                    None => {
                        assert(v@[i as int] != k);
                    },
                }
            }
            return Some(i);
        }
        i = i + 1;
    }
    proof {
        lemma_item_index(v@, k);
        if item_index(v@, k) is Some {
            let j = item_index(v@, k)->0;
            assert(v@[j] == k);
        }
    }
    None
}

fn assoc_put<V>(v: &mut Vec<(EventCode, V)>, k: EventCode, x: V)
    ensures
        final(v)@ == assoc_set(old(v)@, k, x),
{
    match find_key(v, k) {
        Some(i) => {
            proof {
                lemma_key_index(v@, k);
            }
            v.set(i, (k, x));
        },
        None => {
            v.push((k, x));
        },
    }
}

fn assoc_take<V: Copy>(v: &mut Vec<(EventCode, V)>, k: EventCode) -> (r: Option<V>)
    ensures
        r == assoc_get(old(v)@, k),
        final(v)@ == assoc_remove(old(v)@, k),
{
    match find_key(v, k) {
        Some(i) => {
            proof {
                lemma_key_index(v@, k);
            }
            let (_, x) = v.remove(i);
            Some(x)
        },
        None => None,
    }
}

fn set_add(v: &mut Vec<EventCode>, k: EventCode)
    ensures
        final(v)@ == set_insert(old(v)@, k),
{
    if find_item(v, k).is_none() {
        v.push(k);
    }
}

fn set_take(v: &mut Vec<EventCode>, k: EventCode) -> (r: bool)
    ensures
        r == (item_index(old(v)@, k) is Some),
        final(v)@ == set_remove(old(v)@, k),
{
    match find_item(v, k) {
        Some(i) => {
            proof {
                lemma_item_index(v@, k);
            }
            v.remove(i);
            true
        },
        None => false,
    }
}

fn push_event(out: &mut EngineOutput, code: EventCode, value: i32)
    ensures
        final(out).events@ == old(out).events@.push(OutputEvent { code, value }),
        final(out).commands@ == old(out).commands@,
{
    out.events.push(OutputEvent { code, value });
}

/// Where an engine layer's table comes from: the mappings of a profile
/// layer by source, the later mapping winning.
pub open spec fn table_of_layer(t: Seq<(EventCode, MappingModel)>, l: Layer) -> bool {
    &&& crate::profiles::unique_keys(t)
    &&& forall|i: int| 0 <= i < t.len() ==> crate::profiles::last_mapping_is(mappings_view(l.mappings@), (#[trigger] t[i]).0, t[i].1)
    &&& forall|k: EventCode| crate::profiles::last_mapping_of(mappings_view(l.mappings@), k) is Some ==> exists|i: int| 0 <= i < t.len() && (#[trigger] t[i]).0 == k
}

proof fn lemma_table_view(v: Seq<(EventCode, Mapping)>)
    ensures
        table_view(v).len() == v.len(),
        forall|i: int| 0 <= i < v.len() ==> #[trigger] table_view(v)[i] == (v[i].0, v[i].1@),
{
}

impl RemapEngine {
    pub closed spec fn wf(&self) -> bool {
        engine_wf(self@)
    }

    /// The engine for a profile: its layers' mappings by source (the later
    /// mapping of a source winning), no layer active, nothing held or
    /// queued.
    pub fn new(profile: &Profile) -> (r: RemapEngine)
        requires
            profile.layers@.len() > 0,
        ensures
            r.wf(),
            r@.layers.len() == profile.layers@.len(),
            forall|i: int| 0 <= i < profile.layers@.len() ==> (#[trigger] r@.layers[i]).activation == activation_view(profile.layers@[i].activation)
                && table_of_layer(r@.layers[i].mappings, profile.layers@[i]),
            r@.passthrough == profile.passthrough,
            r@.held == Seq::new(profile.layers@.len(), |i: int| false),
            r@.toggled == Seq::new(profile.layers@.len(), |i: int| false),
            r@.pressed_activators.len() == 0,
            r@.key_targets.len() == 0,
            r@.macro_sources.len() == 0,
            r@.command_sources.len() == 0,
            r@.held_releases.len() == 0,
            r@.queue.len() == 0,
            r@.output_keys.len() == 0,
            r@.output_axes.len() == 0,
            r@.turbo.len() == 0,
            r@.pending.len() == 0,
            !r@.stop_requested,
    {
        let mut layers: Vec<EngineLayer> = Vec::new();
        let mut held: Vec<bool> = Vec::new();
        let mut toggled: Vec<bool> = Vec::new();
        let mut i: usize = 0;
        while i < profile.layers.len()
            invariant
                i <= profile.layers@.len(),
                layers@.len() == i,
                held@.len() == i,
                toggled@.len() == i,
                forall|k: int| 0 <= k < i ==> !held@[k] && !toggled@[k],
                forall|k: int| 0 <= k < i ==> activation_view((#[trigger] layers@[k]).activation) == activation_view(profile.layers@[k].activation)
                    && table_of_layer(table_view(layers@[k].mappings@), profile.layers@[k]),
            decreases profile.layers@.len() - i,
        {
            let l = &profile.layers[i];
            let activation = match &l.activation {
                Some(a) => Some(LayerActivation {
                    mode: a.mode,
                    control: a.control,
                    control_name: a.control_name.clone(),
                    consume: a.consume,
                }),
                None => None,
            };
            let mappings = l.mapping_behavior_table();
            proof {
                lemma_table_view(mappings@);
                let t = table_view(mappings@);
                assert forall|a: int, b: int| 0 <= a < b < t.len() implies (#[trigger] t[a]).0 != (#[trigger] t[b]).0 by {
                    assert(t[a].0 == mappings@[a].0);
                    assert(t[b].0 == mappings@[b].0);
                }
                assert forall|k: EventCode| crate::profiles::last_mapping_of(mappings_view(l.mappings@), k) is Some implies exists|j: int| 0 <= j < t.len() && (#[trigger] t[j]).0 == k by {
                    let j = choose|j: int| 0 <= j < mappings@.len() && (#[trigger] mappings@[j]).0 == k;
                    assert(t[j].0 == k);
                }
            }
            layers.push(EngineLayer { activation, mappings });
            held.push(false);
            toggled.push(false);
            i = i + 1;
        }
        let r = RemapEngine {
            layers,
            passthrough: profile.passthrough,
            held,
            toggled,
            pressed_activators: Vec::new(),
            key_targets: Vec::new(),
            macro_sources: Vec::new(),
            command_sources: Vec::new(),
            held_releases: Vec::new(),
            queue: Vec::new(),
            output_keys: Vec::new(),
            output_axes: Vec::new(),
            turbo: Vec::new(),
            pending: Vec::new(),
            stop_requested: false,
        };
        assert(r@.held =~= Seq::new(profile.layers@.len(), |i: int| false));
        assert(r@.toggled =~= Seq::new(profile.layers@.len(), |i: int| false));
        r
    }

    /// Whether a command asked the remap to turn off.
    pub fn stop_requested(&self) -> (r: bool)
        ensures
            r == self@.stop_requested,
    {
        self.stop_requested
    }

    fn active_layer_index(&self) -> (r: usize)
        requires
            self.wf(),
        ensures
            r as int == active_layer(self@),
            r < self@.layers.len(),
    {
        let mut n: usize = self.layers.len();
        while n > 1
            invariant
                1 <= n <= self@.layers.len(),
                self.wf(),
                active_layer(self@) == active_below(self@, n as int),
            decreases n,
        {
            if self.held[n - 1] || self.toggled[n - 1] {
                return n - 1;
            }
            n = n - 1;
        }
        0
    }

    /// The mapping a source resolves to in the active layer.
    pub fn resolve(&self, source: EventCode) -> (r: Resolution)
        requires
            self.wf(),
        ensures
            r == resolution_of(self@, source),
            valid_resolution(self@.layers, r),
    {
        let l = self.active_layer_index();
        proof {
            lemma_table_view(self.layers@[l as int].mappings@);
        }
        match find_key(&self.layers[l].mappings, source) {
            Some(i) => {
                proof {
                    let t = self@.layers[l as int].mappings;
                    let v = self.layers@[l as int].mappings@;
                    lemma_key_index(v, source);
                    lemma_key_index(t, source);
                    assert(t[i as int].0 == source);
                    match key_index(t, source) {
                        Some(j) => {
                            if j < i {
                                assert(v[j].0 == t[j].0);
                            } else if j > i {
                                assert(t[i as int].0 == source);
                            }
                        },
                        None => {},
                    }
                }
                Resolution::Mapped { layer: l, index: i }
            },
            None => {
                proof {
                    let t = self@.layers[l as int].mappings;
                    let v = self.layers@[l as int].mappings@;
                    lemma_key_index(v, source);
                    lemma_key_index(t, source);
                    if key_index(t, source) is Some {
                        let j = key_index(t, source)->0;
                        assert(v[j].0 == t[j].0);
                    }
                }
                Resolution::Unmapped
            },
        }
    }

    /// Handles an event of a layer's activation control: holds, releases or
    /// toggles the layers it selects. Returns whether the event is consumed
    /// (and so not remapped).
    pub fn update_layer_activation(&mut self, source: EventCode, value: i32) -> (consumed: bool)
        requires
            old(self).wf(),
        ensures
            final(self).wf(),
            (final(self)@, consumed) == activation_from(old(self)@, false, source, value, 1),
    {
        let mut consumed = false;
        let mut i: usize = 1;
        let ghost start = self@;
        while i < self.layers.len()
            invariant
                1 <= i <= self@.layers.len(),
                self.wf(),
                self@.layers == start.layers,
                activation_from(start, false, source, value, 1) == activation_from(self@, consumed, source, value, i as int),
            decreases self@.layers.len() - i,
        {
            let hit = match &self.layers[i].activation {
                Some(a) => a.control == source,
                None => false,
            };
            if hit {
                let (consume, mode) = match &self.layers[i].activation {
                    Some(a) => (a.consume, a.mode),
                    None => (false, LayerActivationMode::Hold),
                };
                consumed = consumed || consume;
                match mode {
                    LayerActivationMode::Hold => {
                        self.held.set(i, value != 0);
                    },
                    LayerActivationMode::Toggle => {
                        let key = (i, source);
                        if value == 0 {
                            match find_pair(&self.pressed_activators, key) {
                                Some(j) => {
                                    proof {
                                        lemma_item_index(self.pressed_activators@, key);
                                    }
                                    self.pressed_activators.remove(j);
                                },
                                None => {},
                            }
                        } else if find_pair(&self.pressed_activators, key).is_none() {
                            self.pressed_activators.push(key);
                            let t = self.toggled[i];
                            self.toggled.set(i, !t);
                        }
                    },
                }
            }
            i = i + 1;
        }
        consumed
    }
}

fn queue_step(queue: &mut Vec<ScheduledMacroEvent>, x: ScheduledMacroEvent)
    ensures
        final(queue)@ == queued(old(queue)@, x),
{
    let ghost q = queue@;
    let mut j: usize = 0;
    assert(q.skip(0) =~= q);
    while j < queue.len() && !(x.due_ms < queue[j].due_ms)
        invariant
            j <= q.len(),
            queue@ == q,
            queue_position(q, x.due_ms) == j + queue_position(q.skip(j as int), x.due_ms),
        decreases q.len() - j,
    {
        assert(q.skip(j as int)[0] == q[j as int]);
        assert(q.skip(j as int).drop_first() =~= q.skip(j + 1));
        j = j + 1;
    }
    if j < queue.len() {
        assert(q.skip(j as int)[0] == q[j as int]);
    } else {
        assert(q.skip(j as int).len() == 0);
    }
    queue.insert(j, x);
}

fn sat_add_exec(a: u64, b: u64) -> (r: u64)
    ensures
        r == sat_add(a, b),
{
    a.saturating_add(b)
}

fn enqueue_exec(queue: &mut Vec<ScheduledMacroEvent>, events: &Vec<MacroEvent>, now: u64)
    ensures
        final(queue)@ == enqueue_from(old(queue)@, crate::profiles::events_view(events@), now, 0, 0),
{
    let ghost ev = crate::profiles::events_view(events@);
    let ghost q0 = queue@;
    let mut offset: u64 = 0;
    let mut k: usize = 0;
    while k < events.len()
        invariant
            k <= events@.len(),
            ev == crate::profiles::events_view(events@),
            enqueue_from(q0, ev, now, 0, 0) == enqueue_from(queue@, ev, now, offset, k as int),
        decreases events@.len() - k,
    {
        let e = &events[k];
        assert(ev[k as int] == e@);
        match e.kind {
            MacroEventKind::Pause => {
                offset = sat_add_exec(offset, e.pause_ms);
            },
            MacroEventKind::Tap => {
                if let Some(c) = e.code {
                    queue_step(queue, ScheduledMacroEvent { due_ms: sat_add_exec(now, offset), step: QueuedStep::Emit { event: c, value: 1 } });
                    offset = sat_add_exec(offset, MACRO_TAP_RELEASE_MS);
                    queue_step(queue, ScheduledMacroEvent { due_ms: sat_add_exec(now, offset), step: QueuedStep::Emit { event: c, value: 0 } });
                }
            },
            MacroEventKind::Cancel => {
                queue_step(queue, ScheduledMacroEvent { due_ms: sat_add_exec(now, offset), step: QueuedStep::Cancel });
            },
            _ => {
                if let Some(c) = e.code {
                    queue_step(queue, ScheduledMacroEvent { due_ms: sat_add_exec(now, offset), step: QueuedStep::Emit { event: c, value: e.value } });
                }
            },
        }
        k = k + 1;
    }
}

fn targets_hold(targets: &Vec<(EventCode, EventCode)>, key: EventCode) -> (r: bool)
    ensures
        r == is_key_target(targets@, key),
{
    let mut i: usize = 0;
    while i < targets.len()
        invariant
            i <= targets@.len(),
            forall|j: int| 0 <= j < i ==> targets@[j].1 != key,
        decreases targets@.len() - i,
    {
        if targets[i].1 == key {
            assert(targets@[i as int].1 == key);
            return true;
        }
        i = i + 1;
    }
    false
}

impl RemapEngine {
    /// Stops all macros (see [`stop_macros`]).
    pub fn stop_all_macros(&mut self, out: &mut EngineOutput)
        requires
            old(self).wf(),
        ensures
            final(self).wf(),
            step_of(*final(self), *final(out)) == stop_macros(step_of(*old(self), *old(out))),
    {
        let ghost s0 = step_of(*self, *out);
        self.queue = Vec::new();
        self.macro_sources = Vec::new();
        self.held_releases = Vec::new();
        let ghost base = out.events@;
        let mut i: usize = 0;
        while i < self.output_keys.len()
            invariant
                i <= self.output_keys@.len(),
                self.output_keys@ == s0.m.output_keys,
                self.key_targets@ == s0.m.key_targets,
                out.commands@ == old(out).commands@,
                out.events@ == base + key_releases(self.output_keys@.subrange(0, i as int), self.key_targets@),
            decreases self.output_keys@.len() - i,
        {
            let ghost pre = self.output_keys@.subrange(0, i + 1);
            assert(pre.drop_last() =~= self.output_keys@.subrange(0, i as int));
            let key = self.output_keys[i];
            if !targets_hold(&self.key_targets, key) {
                push_event(out, key, 0);
            }
            assert(out.events@ =~= base + key_releases(pre, self.key_targets@));
            i = i + 1;
        }
        assert(self.output_keys@.subrange(0, self.output_keys@.len() as int) =~= self.output_keys@);
        let ghost mid = out.events@;
        let mut j: usize = 0;
        while j < self.output_axes.len()
            invariant
                j <= self.output_axes@.len(),
                self.output_axes@ == s0.m.output_axes,
                out.commands@ == old(out).commands@,
                out.events@ == mid + axis_releases(self.output_axes@.subrange(0, j as int)),
            decreases self.output_axes@.len() - j,
        {
            let ghost pre = self.output_axes@.subrange(0, j + 1);
            assert(pre.drop_last() =~= self.output_axes@.subrange(0, j as int));
            let (axis, value) = self.output_axes[j];
            if value != 0 {
                push_event(out, axis, 0);
            }
            assert(out.events@ =~= mid + axis_releases(pre));
            j = j + 1;
        }
        assert(self.output_axes@.subrange(0, self.output_axes@.len() as int) =~= self.output_axes@);
        self.output_keys = Vec::new();
        self.output_axes = Vec::new();
        assert(out.events@ =~= s0.events + key_releases(s0.m.output_keys, s0.m.key_targets) + axis_releases(s0.m.output_axes));
        assert(self@.queue =~= Seq::<ScheduledMacroEvent>::empty());
        assert(self@.macro_sources =~= Seq::<EventCode>::empty());
        assert(self@.held_releases =~= Seq::<(EventCode, Resolution)>::empty());
        assert(self@.output_keys =~= Seq::<EventCode>::empty());
        assert(self@.output_axes =~= Seq::<(EventCode, i32)>::empty());
    }

    fn record_output(&mut self, event: EventCode, value: i32)
        requires
            old(self).wf(),
        ensures
            final(self).wf(),
            final(self)@ == recorded(old(self)@, event, value),
    {
        let ghost m0 = self@;
        match event.kind {
            EventKind::Key => {
                if value == 0 {
                    set_take(&mut self.output_keys, event);
                } else {
                    set_add(&mut self.output_keys, event);
                }
            },
            EventKind::Absolute => {
                if value == 0 {
                    assoc_take(&mut self.output_axes, event);
                } else {
                    assoc_put(&mut self.output_axes, event, value);
                }
            },
            EventKind::Relative => {},
        }
        assert(self@.layers == m0.layers);
        assert(self@.pending == m0.pending);
        assert(self@.held_releases == m0.held_releases);
    }

    /// Sends a due macro step's value (after any analog tuning the caller
    /// applies) and remembers what macro output holds.
    pub fn emit_macro_output(&mut self, event: EventCode, value: i32, out: &mut EngineOutput)
        requires
            old(self).wf(),
        ensures
            final(self).wf(),
            step_of(*final(self), *final(out)) == emit(with_m(step_of(*old(self), *old(out)), recorded(old(self)@, event, value)), event, value),
    {
        self.record_output(event, value);
        push_event(out, event, value);
    }

    /// Runs the command of a mapping (see [`run_command`]).
    fn run_command_of(&mut self, r: Resolution, out: &mut EngineOutput)
        requires
            old(self).wf(),
            valid_resolution(old(self)@.layers, r),
            (r_command(old(self)@, r) is Some),
        ensures
            final(self).wf(),
            step_of(*final(self), *final(out)) == run_command(step_of(*old(self), *old(out)), r_command(old(self)@, r)->0),
    {
        let (layer, index) = match r {
            Resolution::Mapped { layer, index } => (layer, index),
            Resolution::Unmapped => (0, 0),
        };
        proof {
            lemma_table_view(self.layers@[layer as int].mappings@);
        }
        let ghost m0 = self@;
        let action = match &self.layers[layer].mappings[index].1.command {
            Some(c) => c.action,
            None => CommandAction::StopMacros,
        };
        match action {
            CommandAction::StopMacros => {
                self.stop_all_macros(out);
            },
            CommandAction::RunCommand => {
                let line = match &self.layers[layer].mappings[index].1.command {
                    Some(c) => copy_string_vec(&c.command_line),
                    None => Vec::new(),
                };
                let ghost before = out.commands@;
                out.commands.push(line);
                assert(commands_view(out.commands@) =~= commands_view(before).push(strings_view(line@)));
                assert(self@ == m0);
            },
            CommandAction::RemapOff => {
                self.stop_requested = true;
                assert(self@ == EngineModel { stop_requested: true, ..m0 });
            },
        }
    }

    fn enqueue_macro_of(&mut self, r: Resolution, release: bool, now: u64)
        requires
            old(self).wf(),
            valid_resolution(old(self)@.layers, r),
            (r_macro(old(self)@, r) is Some),
        ensures
            final(self).wf(),
            final(self)@ == (EngineModel {
                queue: enqueue_from(
                    old(self)@.queue,
                    if release { r_macro(old(self)@, r)->0.release_events } else { r_macro(old(self)@, r)->0.events },
                    now,
                    0,
                    0,
                ),
                ..old(self)@
            }),
    {
        let (layer, index) = match r {
            Resolution::Mapped { layer, index } => (layer, index),
            Resolution::Unmapped => (0, 0),
        };
        proof {
            lemma_table_view(self.layers@[layer as int].mappings@);
        }
        match &self.layers[layer].mappings[index].1.macro_settings {
            Some(ms) => {
                if release {
                    enqueue_exec(&mut self.queue, &ms.release_events, now);
                } else {
                    enqueue_exec(&mut self.queue, &ms.events, now);
                }
            },
            None => {},
        }
    }
}

/// The parts of a resolved mapping the engine decides on.
struct Fields {
    action: MappingAction,
    target: EventCode,
    kind: ActivatorKind,
    delay_ms: u64,
    turbo: Option<u64>,
    has_macro: bool,
    hold_macro: bool,
    has_command: bool,
}

impl RemapEngine {
    fn fields(&self, r: Resolution, source: EventCode) -> (f: Fields)
        requires
            self.wf(),
            valid_resolution(self@.layers, r),
        ensures
            f.action == r_action(self@, r),
            f.target == r_target(self@, r, source),
            f.kind == r_activator(self@, r).kind,
            f.delay_ms == r_activator(self@, r).delay_ms,
            f.turbo == r_turbo(self@, r),
            f.has_macro == (r_macro(self@, r) is Some),
            f.hold_macro == (r_macro(self@, r) matches Some(ms) && ms.mode == MacroMode::Hold),
            f.has_command == (r_command(self@, r) is Some),
    {
        match r {
            Resolution::Mapped { layer, index } => {
                proof {
                    lemma_table_view(self.layers@[layer as int].mappings@);
                }
                let m = &self.layers[layer].mappings[index].1;
                Fields {
                    action: m.action,
                    target: m.to,
                    kind: m.activator.kind,
                    delay_ms: m.activator.delay_ms,
                    turbo: match m.turbo {
                        Some(t) => Some(t.interval_ms),
                        None => None,
                    },
                    has_macro: m.macro_settings.is_some(),
                    hold_macro: match &m.macro_settings {
                        Some(ms) => ms.mode == MacroMode::Hold,
                        None => false,
                    },
                    has_command: m.command.is_some(),
                }
            },
            Resolution::Unmapped => Fields {
                action: MappingAction::Remap,
                target: source,
                kind: ActivatorKind::Press,
                delay_ms: 0,
                turbo: None,
                has_macro: false,
                hold_macro: false,
                has_command: false,
            },
        }
    }

    fn emits(&self, r: Resolution, target: EventCode) -> (b: bool)
        requires
            self.wf(),
        ensures
            b == ((self@.passthrough || r is Mapped) && crate::event_code::output_supports(target)),
    {
        let mapped = match r {
            Resolution::Mapped { .. } => true,
            Resolution::Unmapped => false,
        };
        (self.passthrough || mapped) && virtual_output_supports(target)
    }

    fn drop_pending(&mut self, source: EventCode)
        requires
            old(self).wf(),
        ensures
            final(self).wf(),
            final(self)@ == (EngineModel { pending: assoc_remove(old(self)@.pending, source), ..old(self)@ }),
    {
        let ghost m0 = self@;
        proof {
            lemma_key_index(self.pending@, source);
        }
        assoc_take(&mut self.pending, source);
        proof {
            assert(self@ == EngineModel { pending: assoc_remove(m0.pending, source), ..m0 });
            assert forall|i: int| 0 <= i < self@.pending.len() implies valid_resolution(self@.layers, (#[trigger] self@.pending[i]).1.resolution) by {
                match key_index(m0.pending, source) {
                    Some(k) => {
                        if i < k {
                            assert(self@.pending[i] == m0.pending[i]);
                        } else {
                            assert(self@.pending[i] == m0.pending[i + 1]);
                        }
                    },
                    None => {},
                }
            }
        }
    }

    /// Fires a long, release or multi-press mapping (see [`fire_mapping`]).
    fn fire(&mut self, source: EventCode, r: Resolution, now: u64, out: &mut EngineOutput)
        requires
            old(self).wf(),
            valid_resolution(old(self)@.layers, r),
        ensures
            final(self).wf(),
            step_of(*final(self), *final(out)) == fire_mapping(step_of(*old(self), *old(out)), source, r, now),
    {
        let f = self.fields(r, source);
        match f.action {
            MappingAction::Macro => {
                if f.has_macro {
                    self.enqueue_macro_of(r, false, now);
                }
                self.drop_pending(source);
            },
            MappingAction::Command => {
                if f.has_command {
                    self.run_command_of(r, out);
                }
                self.drop_pending(source);
            },
            MappingAction::Disable => {
                self.drop_pending(source);
            },
            MappingAction::Remap => {
                if !self.emits(r, f.target) {
                    return;
                }
                push_event(out, f.target, 1);
                push_event(out, f.target, 0);
                self.drop_pending(source);
            },
        }
    }
}

proof fn lemma_pending_valid_after_set(m: EngineModel, source: EventCode, p: PendingActivator)
    requires
        engine_wf(m),
        valid_resolution(m.layers, p.resolution),
    ensures
        engine_wf(EngineModel { pending: assoc_set(m.pending, source, p), ..m }),
{
    lemma_key_index(m.pending, source);
    let n = assoc_set(m.pending, source, p);
    assert forall|i: int| 0 <= i < n.len() implies valid_resolution(m.layers, (#[trigger] n[i]).1.resolution) by {
        match key_index(m.pending, source) {
            Some(k) => {
                if i != k {
                    assert(n[i] == m.pending[i]);
                }
            },
            None => {
                if i < m.pending.len() {
                    assert(n[i] == m.pending[i]);
                }
            },
        }
    }
}

proof fn lemma_releases_valid_after_set(m: EngineModel, source: EventCode, r: Resolution)
    requires
        engine_wf(m),
        valid_resolution(m.layers, r),
    ensures
        engine_wf(EngineModel { held_releases: assoc_set(m.held_releases, source, r), ..m }),
{
    lemma_key_index(m.held_releases, source);
    let n = assoc_set(m.held_releases, source, r);
    assert forall|i: int| 0 <= i < n.len() implies valid_resolution(m.layers, (#[trigger] n[i]).1) by {
        match key_index(m.held_releases, source) {
            Some(k) => {
                if i != k {
                    assert(n[i] == m.held_releases[i]);
                }
            },
            None => {
                if i < m.held_releases.len() {
                    assert(n[i] == m.held_releases[i]);
                }
            },
        }
    }
}

proof fn lemma_releases_valid_after_remove(m: EngineModel, source: EventCode)
    requires
        engine_wf(m),
    ensures
        engine_wf(EngineModel { held_releases: assoc_remove(m.held_releases, source), ..m }),
        assoc_get(m.held_releases, source) matches Some(r) ==> valid_resolution(m.layers, r),
{
    lemma_key_index(m.held_releases, source);
    let n = assoc_remove(m.held_releases, source);
    assert forall|i: int| 0 <= i < n.len() implies valid_resolution(m.layers, (#[trigger] n[i]).1) by {
        match key_index(m.held_releases, source) {
            Some(k) => {
                if i < k {
                    assert(n[i] == m.held_releases[i]);
                } else {
                    assert(n[i] == m.held_releases[i + 1]);
                }
            },
            None => {},
        }
    }
}

impl RemapEngine {
    /// A key event for a release, long or multi-press activator (see
    /// [`activated_key`]).
    fn activated(&mut self, source: EventCode, value: i32, r: Resolution, now: u64, out: &mut EngineOutput)
        requires
            old(self).wf(),
            valid_resolution(old(self)@.layers, r),
        ensures
            final(self).wf(),
            step_of(*final(self), *final(out)) == activated_key(step_of(*old(self), *old(out)), source, value, r, now),
    {
        let f = self.fields(r, source);
        let ghost m0 = self@;
        proof {
            lemma_key_index(self.pending@, source);
        }
        match f.kind {
            ActivatorKind::Release => {
                if value == 0 {
                    match find_key(&self.pending, source) {
                        Some(i) => {
                            let p = self.pending[i].1;
                            self.drop_pending(source);
                            self.fire(source, p.resolution, now, out);
                        },
                        None => {},
                    }
                } else {
                    let np = PendingActivator { resolution: r, count: 1, required_count: 1, due_ms: None };
                    proof {
                        lemma_pending_valid_after_set(self@, source, np);
                    }
                    assoc_put(&mut self.pending, source, np);
                    assert(self@ == EngineModel { pending: assoc_set(m0.pending, source, np), ..m0 });
                }
            },
            ActivatorKind::LongPress => {
                if value == 0 {
                    self.drop_pending(source);
                } else if find_key(&self.pending, source).is_none() {
                    let np = PendingActivator { resolution: r, count: 1, required_count: 1, due_ms: Some(sat_add_exec(now, f.delay_ms)) };
                    proof {
                        lemma_pending_valid_after_set(self@, source, np);
                    }
                    self.pending.push((source, np));
                    assert(self@ == EngineModel { pending: m0.pending.push((source, np)), ..m0 });
                }
            },
            ActivatorKind::DoublePress | ActivatorKind::TriplePress => {
                if value != 0 {
                    let required: u8 = match f.kind {
                        ActivatorKind::DoublePress => 2,
                        _ => 3,
                    };
                    let due = sat_add_exec(now, f.delay_ms);
                    match find_key(&self.pending, source) {
                        Some(i) => {
                            let p = self.pending[i].1;
                            let pk = self.fields(p.resolution, source).kind;
                            let count: u8 = if pk == f.kind {
                                if p.count == 255 {
                                    255
                                } else {
                                    p.count + 1
                                }
                            } else {
                                1
                            };
                            let np = PendingActivator { resolution: r, count, required_count: required, due_ms: Some(due) };
                            if count >= required {
                                self.drop_pending(source);
                                self.fire(source, r, now, out);
                            } else {
                                proof {
                                    lemma_pending_valid_after_set(self@, source, np);
                                }
                                self.pending.set(i, (source, np));
                                assert(self@ == EngineModel { pending: assoc_set(m0.pending, source, np), ..m0 });
                            }
                        },
                        None => {
                            let np = PendingActivator { resolution: r, count: 1, required_count: required, due_ms: Some(due) };
                            proof {
                                lemma_pending_valid_after_set(self@, source, np);
                            }
                            self.pending.push((source, np));
                            assert(self@ == EngineModel { pending: m0.pending.push((source, np)), ..m0 });
                        },
                    }
                }
            },
            ActivatorKind::Press => {},
        }
    }
}

impl RemapEngine {
    /// Pressing a source with a press activator (see [`press_action`]).
    fn press(&mut self, source: EventCode, r: Resolution, now: u64, out: &mut EngineOutput)
        requires
            old(self).wf(),
            valid_resolution(old(self)@.layers, r),
        ensures
            final(self).wf(),
            step_of(*final(self), *final(out)) == press_action(step_of(*old(self), *old(out)), source, r, now),
    {
        let f = self.fields(r, source);
        let ghost m0 = self@;
        match f.action {
            MappingAction::Macro => {
                if f.has_macro {
                    set_add(&mut self.macro_sources, source);
                    let ghost m1 = self@;
                    assert(m1 == EngineModel { macro_sources: set_insert(m0.macro_sources, source), ..m0 });
                    self.enqueue_macro_of(r, false, now);
                    if f.hold_macro {
                        proof {
                            lemma_releases_valid_after_set(self@, source, r);
                        }
                        let ghost m2 = self@;
                        assoc_put(&mut self.held_releases, source, r);
                        assert(self@ == EngineModel { held_releases: assoc_set(m2.held_releases, source, r), ..m2 });
                    }
                }
            },
            MappingAction::Command => {
                if f.has_command {
                    set_add(&mut self.command_sources, source);
                    assert(self@ == EngineModel { command_sources: set_insert(m0.command_sources, source), ..m0 });
                    self.run_command_of(r, out);
                }
            },
            MappingAction::Disable => {},
            MappingAction::Remap => {
                if self.emits(r, f.target) {
                    assoc_put(&mut self.key_targets, source, f.target);
                    assert(self@ == EngineModel { key_targets: assoc_set(m0.key_targets, source, f.target), ..m0 });
                    push_event(out, f.target, 1);
                    if let Some(iv) = f.turbo {
                        let ghost m1 = self@;
                        let t = TurboState { target: f.target, interval_ms: iv, next_toggle_ms: sat_add_exec(now, iv), output_down: true };
                        assoc_put(&mut self.turbo, source, t);
                        assert(self@ == EngineModel { turbo: assoc_set(m1.turbo, source, t), ..m1 });
                    }
                }
            },
        }
    }

    /// Releasing a source with a press activator (see [`release_action`]).
    fn release(&mut self, source: EventCode, r: Resolution, now: u64, out: &mut EngineOutput)
        requires
            old(self).wf(),
            valid_resolution(old(self)@.layers, r),
        ensures
            final(self).wf(),
            step_of(*final(self), *final(out)) == release_action(step_of(*old(self), *old(out)), source, r, now),
    {
        let f = self.fields(r, source);
        let ghost m0 = self@;
        if set_take(&mut self.command_sources, source) {
            assert(self@ == EngineModel { command_sources: set_remove(m0.command_sources, source), ..m0 });
            return;
        }
        if set_take(&mut self.macro_sources, source) {
            let ghost m1 = self@;
            assert(m1 == EngineModel { macro_sources: set_remove(m0.macro_sources, source), ..m0 });
            proof {
                lemma_releases_valid_after_remove(m1, source);
            }
            match assoc_take(&mut self.held_releases, source) {
                Some(hr) => {
                    assert(self@ == EngineModel { held_releases: assoc_remove(m1.held_releases, source), ..m1 });
                    let hf = self.fields(hr, source);
                    if hf.has_macro {
                        self.enqueue_macro_of(hr, true, now);
                    }
                },
                None => {
                    assert(self@ == m1);
                },
            }
            return;
        }
        assert(self@ == m0);
        match assoc_take(&mut self.key_targets, source) {
            None => {
                assert(self@ == m0);
                if f.action == MappingAction::Remap && self.emits(r, f.target) {
                    push_event(out, f.target, 0);
                }
            },
            Some(target) => {
                let ghost m1 = self@;
                assert(m1 == EngineModel { key_targets: assoc_remove(m0.key_targets, source), ..m0 });
                match assoc_take(&mut self.turbo, source) {
                    Some(t) => {
                        assert(self@ == EngineModel { turbo: assoc_remove(m1.turbo, source), ..m1 });
                        if t.output_down {
                            push_event(out, target, 0);
                        }
                    },
                    None => {
                        assert(self@ == m1);
                        push_event(out, target, 0);
                    },
                }
            },
        }
    }

    /// Handles a key event of the source device at time `now` (see
    /// [`key_step`]): presses, releases, macros, commands, turbo and
    /// long/multi-press activators.
    pub fn key_event(&mut self, source: EventCode, value: i32, now: u64, out: &mut EngineOutput)
        requires
            old(self).wf(),
        ensures
            final(self).wf(),
            step_of(*final(self), *final(out)) == key_step(step_of(*old(self), *old(out)), source, value, now),
    {
        let r = self.resolve(source);
        let f = self.fields(r, source);
        if f.kind != ActivatorKind::Press {
            self.activated(source, value, r, now, out);
            return;
        }
        if value == 0 {
            self.release(source, r, now, out);
            return;
        }
        if find_key(&self.key_targets, source).is_some() || find_item(&self.macro_sources, source).is_some()
            || find_item(&self.command_sources, source).is_some() {
            return;
        }
        self.press(source, r, now, out);
    }
}

fn due_source_list(pending: &Vec<(EventCode, PendingActivator)>, now: u64) -> (r: Vec<EventCode>)
    ensures
        r@ == due_sources(pending@, now),
{
    let mut r: Vec<EventCode> = Vec::new();
    let mut i: usize = 0;
    while i < pending.len()
        invariant
            i <= pending@.len(),
            r@ == due_sources(pending@.subrange(0, i as int), now),
        decreases pending@.len() - i,
    {
        let ghost pre = pending@.subrange(0, i + 1);
        assert(pre.drop_last() =~= pending@.subrange(0, i as int));
        let (source, p) = pending[i];
        match p.due_ms {
            Some(d) => {
                if now >= d {
                    r.push(source);
                }
            },
            None => {},
        }
        i = i + 1;
    }
    assert(pending@.subrange(0, pending@.len() as int) =~= pending@);
    r
}

impl RemapEngine {
    /// Fires the long presses due at `now` and forgets the other activators
    /// whose time ran out (see [`due_activators`]).
    pub fn push_due_activator_events(&mut self, now: u64, out: &mut EngineOutput)
        requires
            old(self).wf(),
        ensures
            final(self).wf(),
            step_of(*final(self), *final(out)) == due_activators(step_of(*old(self), *old(out)), now),
    {
        let ghost s0 = step_of(*self, *out);
        let sources = due_source_list(&self.pending, now);
        let mut k: usize = 0;
        while k < sources.len()
            invariant
                k <= sources@.len(),
                self.wf(),
                sources@ == due_sources(s0.m.pending, now),
                due_from(step_of(*self, *out), sources@, now, k as int) == due_from(s0, sources@, now, 0),
            decreases sources@.len() - k,
        {
            let source = sources[k];
            proof {
                lemma_key_index(self.pending@, source);
            }
            match find_key(&self.pending, source) {
                Some(i) => {
                    let p = self.pending[i].1;
                    assert(self@.pending[i as int] == (source, p));
                    self.drop_pending(source);
                    let kind = self.fields(p.resolution, source).kind;
                    if kind == ActivatorKind::LongPress {
                        self.fire(source, p.resolution, now, out);
                    }
                },
                None => {},
            }
            k = k + 1;
        }
    }

    /// Takes the first queued macro step when it is due at `now` (see
    /// [`macro_due`]): an output step is handed back, for the caller to
    /// tune and pass to [`RemapEngine::emit_macro_output`]; a cancel stops
    /// all macros.
    pub fn next_due_macro(&mut self, now: u64, out: &mut EngineOutput) -> (r: Option<(EventCode, i32)>)
        requires
            old(self).wf(),
        ensures
            final(self).wf(),
            (step_of(*final(self), *final(out)), r) == macro_due(step_of(*old(self), *old(out)), now),
    {
        if self.queue.len() == 0 || now < self.queue[0].due_ms {
            return None;
        }
        let ghost m0 = self@;
        let first = self.queue.remove(0);
        assert(self.queue@ =~= m0.queue.drop_first());
        assert(self@ == EngineModel { queue: m0.queue.drop_first(), ..m0 });
        match first.step {
            QueuedStep::Emit { event, value } => Some((event, value)),
            QueuedStep::Cancel => {
                self.stop_all_macros(out);
                None
            },
        }
    }

    /// Flips each turbo target whose time has come and schedules its next
    /// flip (see [`turbo_from`]).
    pub fn push_due_turbo_events(&mut self, now: u64, out: &mut EngineOutput)
        requires
            old(self).wf(),
        ensures
            final(self).wf(),
            step_of(*final(self), *final(out)) == turbo_from(step_of(*old(self), *old(out)), now, 0),
    {
        let ghost s0 = step_of(*self, *out);
        let mut k: usize = 0;
        while k < self.turbo.len()
            invariant
                k <= self@.turbo.len(),
                self.wf(),
                turbo_from(step_of(*self, *out), now, k as int) == turbo_from(s0, now, 0),
            decreases self@.turbo.len() - k,
        {
            let ghost m0 = self@;
            let (source, t) = self.turbo[k];
            if now >= t.next_toggle_ms {
                let down = !t.output_down;
                let nt = TurboState { output_down: down, next_toggle_ms: sat_add_exec(now, t.interval_ms), ..t };
                self.turbo.set(k, (source, nt));
                assert(self@ == EngineModel { turbo: m0.turbo.update(k as int, (source, nt)), ..m0 });
                push_event(out, t.target, if down { 1 } else { 0 });
            }
            k = k + 1;
        }
    }

    /// What to do with an absolute axis event of `source` (see
    /// [`absolute_plan_of`]).
    pub fn absolute_plan(&self, source: EventCode) -> (p: AbsolutePlan)
        requires
            self.wf(),
        ensures
            p == absolute_plan_of(self@, source),
    {
        let r = self.resolve(source);
        let f = self.fields(r, source);
        let remap = f.action == MappingAction::Remap;
        let route = if !remap || !self.emits(r, f.target) {
            AbsoluteRoute::Drop
        } else if f.target.kind == EventKind::Relative {
            AbsoluteRoute::Relative { target: f.target }
        } else {
            AbsoluteRoute::Emit { target: f.target }
        };
        AbsolutePlan { target: f.target, transformable: remap && f.target.kind == EventKind::Absolute, route }
    }
}

// ---------------------------------------------------------------------------
// What the virtual device must be able to emit

/// Whether a mapping makes the virtual device emit `e`: the target of a
/// plain remapping, or a code that a macro's steps (press or release) use.
pub open spec fn mapping_outputs(m: MappingModel, e: EventCode) -> bool {
    match m.action {
        MappingAction::Remap => m.to == e,
        MappingAction::Macro => match m.macro_settings {
            Some(ms) => (exists|k: int| 0 <= k < ms.events.len() && (#[trigger] ms.events[k]).code == Some(e))
                || (exists|k: int| 0 <= k < ms.release_events.len() && (#[trigger] ms.release_events[k]).code == Some(e)),
            None => false,
        },
        MappingAction::Disable | MappingAction::Command => false,
    }
}

/// Whether some mapping of some layer of the profile makes the virtual
/// device emit `e`.
pub open spec fn profile_outputs(p: crate::profiles::ProfileModel, e: EventCode) -> bool {
    exists|i: int, j: int|
        0 <= i < p.layers.len() && 0 <= j < p.layers[i].mappings.len() && #[trigger] mapping_outputs(p.layers[i].mappings[j], e)
}

/// No code occurs twice.
pub open spec fn distinct_codes(s: Seq<EventCode>) -> bool {
    forall|a: int, b: int| 0 <= a < b < s.len() ==> s[a] != s[b]
}

fn add_code(r: &mut Vec<EventCode>, e: EventCode)
    requires
        distinct_codes(old(r)@),
    ensures
        distinct_codes(final(r)@),
        forall|x: EventCode| #![trigger final(r)@.contains(x)] final(r)@.contains(x) <==> (old(r)@.contains(x) || x == e),
{
    let ghost r0 = r@;
    proof {
        lemma_item_index(r0, e);
    }
    set_add(r, e);
    proof {
        if item_index(r0, e) is Some {
            let i = item_index(r0, e)->0;
            assert(r0[i] == e);
        } else {
            assert(r@ == r0.push(e));
            assert forall|x: EventCode| r@.contains(x) implies (r0.contains(x) || x == e) by {
                let k = choose|k: int| 0 <= k < r@.len() && r@[k] == x;
                if k < r0.len() {
                    assert(r0[k] == x);
                }
            }
            assert forall|x: EventCode| r0.contains(x) implies r@.contains(x) by {
                let k = choose|k: int| 0 <= k < r0.len() && r0[k] == x;
                assert(r@[k] == x);
            }
            assert(r@[r0.len() as int] == e);
        }
    }
}

fn add_macro_codes(r: &mut Vec<EventCode>, events: &Vec<MacroEvent>)
    requires
        distinct_codes(old(r)@),
    ensures
        distinct_codes(final(r)@),
        forall|x: EventCode| #![trigger final(r)@.contains(x)] final(r)@.contains(x) <==> (old(r)@.contains(x)
            || exists|k: int| 0 <= k < events@.len() && (#[trigger] events@[k]).code == Some(x)),
{
    let ghost r0 = r@;
    let mut k: usize = 0;
    while k < events.len()
        invariant
            k <= events@.len(),
            distinct_codes(r@),
            forall|x: EventCode| #![trigger r@.contains(x)] r@.contains(x) <==> (r0.contains(x)
                || exists|q: int| 0 <= q < k && (#[trigger] events@[q]).code == Some(x)),
        decreases events@.len() - k,
    {
        let ghost before = r@;
        if let Some(c) = events[k].code {
            add_code(r, c);
        }
        proof {
            assert forall|x: EventCode| #![trigger r@.contains(x)] r@.contains(x) <==> (r0.contains(x)
                || exists|q: int| 0 <= q < k + 1 && (#[trigger] events@[q]).code == Some(x)) by {
                if exists|q: int| 0 <= q < k + 1 && (#[trigger] events@[q]).code == Some(x) {
                    let q = choose|q: int| 0 <= q < k + 1 && (#[trigger] events@[q]).code == Some(x);
                    if q < k {
                        assert(before.contains(x));
                    }
                }
                if before.contains(x) && !r0.contains(x) {
                    let q = choose|q: int| 0 <= q < k && (#[trigger] events@[q]).code == Some(x);
                    assert(0 <= q < k + 1);
                }
                if r@.contains(x) && !before.contains(x) {
                    assert(events@[k as int].code == Some(x));
                }
            }
        }
        k = k + 1;
    }
}

fn add_layer_outputs(r: &mut Vec<EventCode>, layer: &Layer)
    requires
        distinct_codes(old(r)@),
    ensures
        distinct_codes(final(r)@),
        forall|x: EventCode| #![trigger final(r)@.contains(x)] final(r)@.contains(x) <==> (old(r)@.contains(x)
            || exists|j: int| 0 <= j < layer@.mappings.len() && #[trigger] mapping_outputs(layer@.mappings[j], x)),
{
    let ghost r0 = r@;
    let ghost ms = layer@.mappings;
    let mut j: usize = 0;
    while j < layer.mappings.len()
        invariant
            j <= layer.mappings@.len(),
            ms == layer@.mappings,
            ms.len() == layer.mappings@.len(),
            distinct_codes(r@),
            forall|x: EventCode| #![trigger r@.contains(x)] r@.contains(x) <==> (r0.contains(x)
                || exists|q: int| 0 <= q < j && #[trigger] mapping_outputs(ms[q], x)),
        decreases layer.mappings@.len() - j,
    {
        let ghost before = r@;
        let m = &layer.mappings[j];
        assert(ms[j as int] == m@);
        match m.action {
            MappingAction::Remap => {
                add_code(r, m.to);
            },
            MappingAction::Macro => {
                if let Some(mset) = &m.macro_settings {
                    let ghost mid0 = r@;
                    add_macro_codes(r, &mset.events);
                    let ghost mid = r@;
                    add_macro_codes(r, &mset.release_events);
                    proof {
                        let mv = mset@;
                        assert forall|x: EventCode| r@.contains(x) <==> (before.contains(x) || mapping_outputs(m@, x)) by {
                            if exists|k: int| 0 <= k < mset.events@.len() && (#[trigger] mset.events@[k]).code == Some(x) {
                                let k = choose|k: int| 0 <= k < mset.events@.len() && (#[trigger] mset.events@[k]).code == Some(x);
                                assert(mv.events[k].code == Some(x));
                            }
                            if exists|k: int| 0 <= k < mset.release_events@.len() && (#[trigger] mset.release_events@[k]).code == Some(x) {
                                let k = choose|k: int| 0 <= k < mset.release_events@.len() && (#[trigger] mset.release_events@[k]).code == Some(x);
                                assert(mv.release_events[k].code == Some(x));
                            }
                            if exists|k: int| 0 <= k < mv.events.len() && (#[trigger] mv.events[k]).code == Some(x) {
                                let k = choose|k: int| 0 <= k < mv.events.len() && (#[trigger] mv.events[k]).code == Some(x);
                                assert(mset.events@[k].code == Some(x));
                            }
                            if exists|k: int| 0 <= k < mv.release_events.len() && (#[trigger] mv.release_events[k]).code == Some(x) {
                                let k = choose|k: int| 0 <= k < mv.release_events.len() && (#[trigger] mv.release_events[k]).code == Some(x);
                                assert(mset.release_events@[k].code == Some(x));
                            }
                        }
                    }
                }
            },
            MappingAction::Disable | MappingAction::Command => {},
        }
        proof {
            assert forall|x: EventCode| r@.contains(x) <==> (before.contains(x) || mapping_outputs(ms[j as int], x)) by {}
            assert forall|x: EventCode| #![trigger r@.contains(x)] r@.contains(x) <==> (r0.contains(x)
                || exists|q: int| 0 <= q < j + 1 && #[trigger] mapping_outputs(ms[q], x)) by {
                if exists|q: int| 0 <= q < j + 1 && #[trigger] mapping_outputs(ms[q], x) {
                    let q = choose|q: int| 0 <= q < j + 1 && #[trigger] mapping_outputs(ms[q], x);
                    if q < j {
                        assert(before.contains(x));
                    }
                }
                if before.contains(x) && !r0.contains(x) {
                    let q = choose|q: int| 0 <= q < j && #[trigger] mapping_outputs(ms[q], x);
                    assert(0 <= q < j + 1);
                }
                if r@.contains(x) && !before.contains(x) {
                    assert(mapping_outputs(ms[j as int], x));
                }
            }
        }
        j = j + 1;
    }
}

/// The codes the virtual device must be able to emit for a profile's
/// mappings, each once: the targets of plain remappings and the codes of
/// macro steps, over all layers. (Analog zones and stick transforms add
/// their own targets.)
pub fn profile_output_events(profile: &Profile) -> (r: Vec<EventCode>)
    ensures
        distinct_codes(r@),
        forall|x: EventCode| r@.contains(x) <==> profile_outputs(profile@, x),
{
    let ghost ls = profile@.layers;
    let mut r: Vec<EventCode> = Vec::new();
    let mut i: usize = 0;
    while i < profile.layers.len()
        invariant
            i <= profile.layers@.len(),
            ls == profile@.layers,
            ls.len() == profile.layers@.len(),
            distinct_codes(r@),
            forall|x: EventCode| #![trigger r@.contains(x)] r@.contains(x) <==> exists|a: int, b: int|
                0 <= a < i && 0 <= b < ls[a].mappings.len() && #[trigger] mapping_outputs(ls[a].mappings[b], x),
        decreases profile.layers@.len() - i,
    {
        let ghost before = r@;
        assert(ls[i as int] == profile.layers@[i as int]@);
        add_layer_outputs(&mut r, &profile.layers[i]);
        proof {
            assert forall|x: EventCode| #![trigger r@.contains(x)] r@.contains(x) <==> exists|a: int, b: int|
                0 <= a < i + 1 && 0 <= b < ls[a].mappings.len() && #[trigger] mapping_outputs(ls[a].mappings[b], x) by {
                if exists|a: int, b: int| 0 <= a < i + 1 && 0 <= b < ls[a].mappings.len() && #[trigger] mapping_outputs(ls[a].mappings[b], x) {
                    let (a, b) = choose|a: int, b: int| 0 <= a < i + 1 && 0 <= b < ls[a].mappings.len() && #[trigger] mapping_outputs(ls[a].mappings[b], x);
                    if a < i {
                        assert(before.contains(x));
                    } else {
                        assert(mapping_outputs(ls[i as int].mappings[b], x));
                    }
                }
                if r@.contains(x) && !before.contains(x) {
                    let b = choose|b: int| 0 <= b < ls[i as int].mappings.len() && #[trigger] mapping_outputs(ls[i as int].mappings[b], x);
                    assert(mapping_outputs(ls[i as int].mappings[b], x));
                }
            }
        }
        i = i + 1;
    }
    r
}

} // verus!
