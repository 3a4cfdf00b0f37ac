//! The control API's requests and what its answers are built from: the slot
//! summary of a device, the slot an `apply_slot` request uses, and the
//! lifecycle of a background remap.

use vstd::prelude::*;
use crate::event_code::{capture_event_code, event_name, event_of, virtual_xbox_supports, xbox_supports};
use crate::profiles::Profile;
use crate::slots::{
    lookup, valid_slot, DeviceSlotsModel, SlotError, SlotStore, DEFAULT_SELECTED_SLOT, SLOT_COUNT,
};

verus! {

/// A control request (sent as JSON tagged by a `cmd` field, e.g.
/// `{"cmd":"select_slot","device":"...","slot":2}`).
#[derive(Clone, Debug, PartialEq, Eq)]
pub enum Request {
    Status,
    ListProfiles,
    ListDevices,
    Detect,
    ListBatteries,
    ListSlots { device: Option<String> },
    AssignSlot { device: String, slot: u8, profile: String },
    SelectSlot { device: String, slot: u8 },
    ClearSlot { device: String, slot: u8 },
    Apply { profile: String, controller: String },
    ApplySlot { controller: String, slot: Option<u8> },
    RemapOff,
}

/// Lifecycle messages of a background remap.
#[derive(Clone, Debug, PartialEq, Eq)]
pub enum RemapMessage {
    /// The remap started; carries the virtual device node paths.
    Running(Vec<String>),
    /// The remap stopped cleanly (stop requested or `remap_off`).
    Stopped,
    /// The remap failed to start or errored while running.
    Failed(String),
}

/// What a finished remap reports: the virtual device nodes it created.
#[derive(Clone, Debug)]
pub struct RemapReport {
    pub virtual_nodes: Vec<String>,
}

/// One slot of a device as the API reports it.
#[derive(Clone, Debug, PartialEq, Eq)]
pub struct SlotSummary {
    pub slot: u8,
    pub selected: bool,
    pub profile: Option<String>,
}

/// A device's slots as the API reports them: every slot from 1 to 4.
#[derive(Clone, Debug, PartialEq, Eq)]
pub struct DeviceSlotsSummary {
    pub device: String,
    pub selected_slot: u8,
    pub slots: Vec<SlotSummary>,
}

/// The slot of a device reported as selected (slot 1 unless it chose a valid
/// one).
pub open spec fn selected_of(store: Map<Seq<char>, DeviceSlotsModel>, id: Seq<char>) -> u8 {
    match lookup(store, id) {
        Some(d) => match d.selected_slot {
            Some(s) => if valid_slot(s) {
                s
            } else {
                DEFAULT_SELECTED_SLOT
            },
            None => DEFAULT_SELECTED_SLOT,
        },
        None => DEFAULT_SELECTED_SLOT,
    }
}

/// The profile a device's slot holds, if any.
pub open spec fn slot_profile_of(store: Map<Seq<char>, DeviceSlotsModel>, id: Seq<char>, slot: u8) -> Option<Seq<char>> {
    if valid_slot(slot) && store.contains_key(id) && store[id].slots.contains_key(slot) {
        Some(store[id].slots[slot])
    } else {
        None
    }
}

/// The summary of a device's slots: its selected slot and, for each slot
/// from 1 to 4, whether it is selected and the profile it holds.
pub fn device_slots_summary(store: &SlotStore, device_id: &str) -> (r: DeviceSlotsSummary)
    requires
        store.wf(),
    ensures
        r.device@ == device_id@,
        r.selected_slot == selected_of(store@, device_id@),
        r.slots@.len() == 4,
        forall|i: int| 0 <= i < 4 ==> {
            let s = #[trigger] r.slots@[i];
            &&& s.slot == i + 1
            &&& s.selected == (s.slot == r.selected_slot)
            &&& match s.profile {
                Some(p) => slot_profile_of(store@, device_id@, s.slot) == Some(p@),
                None => slot_profile_of(store@, device_id@, s.slot) is None,
            }
        },
{
    let selected = store.selected_slot(device_id);
    let mut slots: Vec<SlotSummary> = Vec::new();
    let mut slot: u8 = 1;
    while slot <= SLOT_COUNT
        invariant
            1 <= slot <= SLOT_COUNT + 1,
            store.wf(),
            selected == selected_of(store@, device_id@),
            slots@.len() == slot - 1,
            forall|i: int| 0 <= i < slots@.len() ==> {
                let s = #[trigger] slots@[i];
                &&& s.slot == i + 1
                &&& s.selected == (s.slot == selected)
                &&& match s.profile {
                    Some(p) => slot_profile_of(store@, device_id@, s.slot) == Some(p@),
                    None => slot_profile_of(store@, device_id@, s.slot) is None,
                }
            },
        decreases SLOT_COUNT + 1 - slot,
    {
        let profile = match store.profile_for_slot(device_id, slot) {
            Some(p) => Some(p.to_owned()),
            None => None,
        };
        slots.push(SlotSummary { slot, selected: slot == selected, profile });
        slot = slot + 1;
    }
    DeviceSlotsSummary { device: device_id.to_owned(), selected_slot: selected, slots }
}

/// The slot an `apply_slot` request uses: the requested one, which must be
/// valid and becomes the device's selection, or else the device's selected
/// slot.
pub fn choose_apply_slot(store: &mut SlotStore, device_id: &str, slot: Option<u8>) -> (r: Result<u8, SlotError>)
    requires
        old(store).wf(),
    ensures
        final(store).wf(),
        match slot {
            Some(s) => match crate::slots::request_error(device_id@, s) {
                Some(e) => r == Err::<u8, SlotError>(e) && final(store)@ == old(store)@,
                None => r == Ok::<u8, SlotError>(s) && final(store)@ == old(store)@.insert(
                    device_id@,
                    crate::slots::selected(lookup(old(store)@, device_id@), s),
                ),
            },
            None => r == Ok::<u8, SlotError>(selected_of(old(store)@, device_id@)) && final(store)@ == old(store)@,
        },
{
    match slot {
        Some(s) => {
            crate::slots::validate_slot(s)?;
            store.select_slot(device_id, s)?;
            Ok(s)
        },
        None => Ok(store.selected_slot(device_id)),
    }
}

/// The first profile whose id or name equals the selector.
pub fn find_profile(profiles: &[Profile], selector: &str) -> (r: Option<usize>)
    ensures
        match r {
            Some(i) => i < profiles@.len() && (profiles@[i as int].id@ == selector@ || profiles@[i as int].name@ == selector@)
                && forall|k: int| 0 <= k < i ==> (#[trigger] profiles@[k]).id@ != selector@ && profiles@[k].name@ != selector@,
            None => forall|k: int| 0 <= k < profiles@.len() ==> (#[trigger] profiles@[k]).id@ != selector@ && profiles@[k].name@ != selector@,
        },
{
    let mut i: usize = 0;
    while i < profiles.len()
        invariant
            i <= profiles@.len(),
            forall|k: int| 0 <= k < i ==> (#[trigger] profiles@[k]).id@ != selector@ && profiles@[k].name@ != selector@,
        decreases profiles@.len() - i,
    {
        let p = &profiles[i];
        let id_hit = crate::text::str_eq(p.id.as_str(), selector);
        let name_hit = crate::text::str_eq(p.name.as_str(), selector);
        assert(p.id@ == profiles@[i as int].id@);
        if id_hit || name_hit {
            return Some(i);
        }
        i = i + 1;
    }
    None
}

/// The name a capture reports for some input events (type, code, value): the
/// first pressed key or moved axis that the virtual gamepad can emit.
pub open spec fn first_capture(events: Seq<(u16, u16, i32)>) -> Option<Seq<char>>
    decreases events.len(),
{
    if events.len() == 0 {
        None
    } else {
        let e = events[0];
        match (if e.2 != 0 { event_of(e.0, e.1) } else { None }) {
            Some(c) => if xbox_supports(c) {
                Some(event_name(c))
            } else {
                first_capture(events.drop_first())
            },
            None => first_capture(events.drop_first()),
        }
    }
}

/// Picks the control a capture reports from a batch of input events.
pub fn captured_control(events: &[(u16, u16, i32)]) -> (r: Option<String>)
    ensures
        match r {
            Some(n) => first_capture(events@) == Some(n@),
            None => first_capture(events@) is None,
        },
{
    let mut i: usize = 0;
    assert(events@.skip(0) =~= events@);
    while i < events.len()
        invariant
            i <= events@.len(),
            first_capture(events@) == first_capture(events@.skip(i as int)),
        decreases events@.len() - i,
    {
        let (t, c, v) = events[i];
        assert(events@.skip(i as int)[0] == events@[i as int]);
        assert(events@.skip(i as int).drop_first() =~= events@.skip(i + 1));
        if let Some(code) = capture_event_code(t, c, v) {
            if virtual_xbox_supports(code) {
                return Some(code.name());
            }
        }
        i = i + 1;
    }
    None
}

} // verus!
