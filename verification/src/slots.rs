//! Profile slots per controller: each device has up to four slots, each
//! holding a profile id, and one selected slot.

use vstd::prelude::*;
use crate::text::{chars_eq, chars_of, trim, trim_str};

verus! {

pub const SLOT_COUNT: u8 = 4;

pub const DEFAULT_SELECTED_SLOT: u8 = 1;

/// Why a slot request was refused.
#[derive(Clone, Copy, Debug, PartialEq, Eq, Structural)]
pub enum SlotError {
    /// The slot is outside 1..=4.
    InvalidSlot,
    /// The device id is blank.
    EmptyDeviceId,
    /// The profile id is blank.
    EmptyProfileId,
}

/// The profile a slot holds.
#[derive(Clone, Debug, PartialEq, Eq)]
pub struct SlotAssignment {
    pub profile_id: String,
}

/// The slots of one device and its selected slot.
#[derive(Clone, Debug)]
pub struct DeviceSlots {
    selected_slot: Option<u8>,
    slots: Vec<(u8, SlotAssignment)>,
}

/// A device's slots as the contracts see them.
pub struct DeviceSlotsModel {
    pub selected_slot: Option<u8>,
    pub slots: Map<u8, Seq<char>>,
}

/// Whether a slot list holds `slot`.
pub open spec fn has_slot(v: Seq<(u8, SlotAssignment)>, slot: u8) -> bool {
    exists|i: int| 0 <= i < v.len() && (#[trigger] v[i]).0 == slot
}

/// The profile id a slot list holds for `slot`.
pub open spec fn slot_profile(v: Seq<(u8, SlotAssignment)>, slot: u8) -> Seq<char> {
    let i = choose|i: int| 0 <= i < v.len() && (#[trigger] v[i]).0 == slot;
    v[i].1.profile_id@
}

/// No slot occurs twice.
pub open spec fn unique_slots(v: Seq<(u8, SlotAssignment)>) -> bool {
    forall|i: int, j: int| 0 <= i < j < v.len() ==> (#[trigger] v[i]).0 != (#[trigger] v[j]).0
}

pub open spec fn slots_map(v: Seq<(u8, SlotAssignment)>) -> Map<u8, Seq<char>> {
    Map::new(|s: u8| has_slot(v, s), |s: u8| slot_profile(v, s))
}

impl View for DeviceSlots {
    type V = DeviceSlotsModel;

    closed spec fn view(&self) -> DeviceSlotsModel {
        DeviceSlotsModel { selected_slot: self.selected_slot, slots: slots_map(self.slots@) }
    }
}

impl DeviceSlots {
    pub closed spec fn wf(&self) -> bool {
        unique_slots(self.slots@)
    }

    /// A device with no slot, selecting `selected_slot`.
    pub fn new(selected_slot: Option<u8>) -> (r: DeviceSlots)
        ensures
            r.wf(),
            r@.selected_slot == selected_slot,
            r@.slots == Map::<u8, Seq<char>>::empty(),
    {
        let r = DeviceSlots { selected_slot, slots: Vec::new() };
        assert(r@.slots =~= Map::<u8, Seq<char>>::empty());
        r
    }

    /// Puts a profile into a slot, replacing what it held.
    pub fn set_slot(&mut self, slot: u8, profile_id: &str)
        requires
            old(self).wf(),
        ensures
            final(self).wf(),
            final(self)@.selected_slot == old(self)@.selected_slot,
            final(self)@.slots == old(self)@.slots.insert(slot, profile_id@),
    {
        let assignment = SlotAssignment { profile_id: crate::text::string_from_chars(&chars_of(profile_id)) };
        match find_slot(&self.slots, slot) {
            Some(i) => {
                proof {
                    lemma_slots_set(self.slots@, i as int, (slot, assignment));
                }
                self.slots.set(i, (slot, assignment));
            },
            None => {
                proof {
                    lemma_slots_push(self.slots@, (slot, assignment));
                }
                self.slots.push((slot, assignment));
            },
        }
    }

    /// The selected slot, if one was chosen.
    pub fn selected(&self) -> (r: Option<u8>)
        ensures
            r == self@.selected_slot,
    {
        self.selected_slot
    }

    /// The slots and the profile ids they hold.
    pub fn assignments(&self) -> (r: &Vec<(u8, SlotAssignment)>)
        requires
            self.wf(),
        ensures
            unique_slots(r@),
            slots_map(r@) == self@.slots,
    {
        &self.slots
    }
}

/// The slots of every device, keyed by device id.
#[derive(Clone, Debug)]
pub struct SlotStore {
    devices: Vec<(String, DeviceSlots)>,
}

/// Whether a device list holds `id`.
pub open spec fn has_device(v: Seq<(String, DeviceSlots)>, id: Seq<char>) -> bool {
    exists|i: int| 0 <= i < v.len() && (#[trigger] v[i]).0@ == id
}

/// The slots a device list holds for `id`.
pub open spec fn device_slots(v: Seq<(String, DeviceSlots)>, id: Seq<char>) -> DeviceSlots {
    let i = choose|i: int| 0 <= i < v.len() && (#[trigger] v[i]).0@ == id;
    v[i].1
}

/// No device id occurs twice, and every device's slots are unique.
pub open spec fn devices_wf(v: Seq<(String, DeviceSlots)>) -> bool {
    &&& forall|i: int, j: int| 0 <= i < j < v.len() ==> (#[trigger] v[i]).0@ != (#[trigger] v[j]).0@
    &&& forall|i: int| 0 <= i < v.len() ==> (#[trigger] v[i]).1.wf()
}

/// The devices of a list by id.
pub open spec fn devices_map(v: Seq<(String, DeviceSlots)>) -> Map<Seq<char>, DeviceSlotsModel> {
    Map::new(|id: Seq<char>| has_device(v, id), |id: Seq<char>| device_slots(v, id)@)
}

impl View for SlotStore {
    type V = Map<Seq<char>, DeviceSlotsModel>;

    closed spec fn view(&self) -> Map<Seq<char>, DeviceSlotsModel> {
        devices_map(self.devices@)
    }
}

/// Slots 1 to 4 exist.
pub open spec fn valid_slot(slot: u8) -> bool {
    1 <= slot && slot <= SLOT_COUNT
}

/// Accepts slots 1 to 4.
pub fn validate_slot(slot: u8) -> (r: Result<(), SlotError>)
    ensures
        r is Ok <==> valid_slot(slot),
        r matches Err(e) ==> e == SlotError::InvalidSlot,
{
    if 1 <= slot && slot <= SLOT_COUNT {
        Ok(())
    } else {
        Err(SlotError::InvalidSlot)
    }
}

/// Accepts a device id that is not blank.
pub fn validate_device_id(device_id: &str) -> (r: Result<(), SlotError>)
    ensures
        r is Ok <==> trim(device_id@).len() > 0,
        r matches Err(e) ==> e == SlotError::EmptyDeviceId,
{
    if trim_str(device_id).len() == 0 {
        Err(SlotError::EmptyDeviceId)
    } else {
        Ok(())
    }
}

/// The device's slots after assigning `profile` to `slot`: the slot holds the
/// profile, and a device with no selected slot selects it.
pub open spec fn assigned(old: Option<DeviceSlotsModel>, slot: u8, profile: Seq<char>) -> DeviceSlotsModel {
    match old {
        Some(d) => DeviceSlotsModel {
            selected_slot: if d.selected_slot is Some {
                d.selected_slot
            } else {
                Some(slot)
            },
            slots: d.slots.insert(slot, profile),
        },
        None => DeviceSlotsModel { selected_slot: Some(slot), slots: Map::empty().insert(slot, profile) },
    }
}

/// The device's slots after selecting `slot`.
pub open spec fn selected(old: Option<DeviceSlotsModel>, slot: u8) -> DeviceSlotsModel {
    match old {
        Some(d) => DeviceSlotsModel { selected_slot: Some(slot), slots: d.slots },
        None => DeviceSlotsModel { selected_slot: Some(slot), slots: Map::empty() },
    }
}

/// The store after clearing `slot` of device `id`: the slot is emptied; a
/// device left with no slot and no selection is dropped.
pub open spec fn cleared(store: Map<Seq<char>, DeviceSlotsModel>, id: Seq<char>, slot: u8) -> Map<Seq<char>, DeviceSlotsModel> {
    if store.contains_key(id) {
        let d = store[id];
        let slots = d.slots.remove(slot);
        if slots.dom() == Set::<u8>::empty() && d.selected_slot is None {
            store.remove(id)
        } else {
            store.insert(id, DeviceSlotsModel { selected_slot: d.selected_slot, slots })
        }
    } else {
        store
    }
}

/// The checks every slot request makes, in order: the slot, then the device
/// id.
pub open spec fn request_error(device_id: Seq<char>, slot: u8) -> Option<SlotError> {
    if !valid_slot(slot) {
        Some(SlotError::InvalidSlot)
    } else if trim(device_id).len() == 0 {
        Some(SlotError::EmptyDeviceId)
    } else {
        None
    }
}

pub open spec fn lookup<K, V>(m: Map<K, V>, k: K) -> Option<V> {
    if m.contains_key(k) {
        Some(m[k])
    } else {
        None
    }
}

proof fn lemma_slots_push(v: Seq<(u8, SlotAssignment)>, x: (u8, SlotAssignment))
    requires
        unique_slots(v),
        !has_slot(v, x.0),
    ensures
        unique_slots(v.push(x)),
        slots_map(v.push(x)) =~= slots_map(v).insert(x.0, x.1.profile_id@),
{
    let w = v.push(x);
    assert forall|s: u8| #[trigger] has_slot(w, s) == (has_slot(v, s) || s == x.0) by {
        if has_slot(v, s) {
            let i = choose|i: int| 0 <= i < v.len() && (#[trigger] v[i]).0 == s;
            assert(w[i].0 == s);
        }
        if s == x.0 {
            assert(w[v.len() as int].0 == s);
        }
    }
    assert forall|s: u8| has_slot(w, s) implies #[trigger] slot_profile(w, s) == (if s == x.0 {
        x.1.profile_id@
    } else {
        slot_profile(v, s)
    }) by {
        let i = choose|i: int| 0 <= i < w.len() && (#[trigger] w[i]).0 == s;
        if s == x.0 {
            if i < v.len() {
                assert(v[i].0 == s);
            }
        } else {
            let j = choose|j: int| 0 <= j < v.len() && (#[trigger] v[j]).0 == s;
            assert(w[j].0 == s);
        }
    }
}

proof fn lemma_slots_set(v: Seq<(u8, SlotAssignment)>, i: int, x: (u8, SlotAssignment))
    requires
        unique_slots(v),
        0 <= i < v.len(),
        v[i].0 == x.0,
    ensures
        unique_slots(v.update(i, x)),
        slots_map(v.update(i, x)) =~= slots_map(v).insert(x.0, x.1.profile_id@),
{
    let w = v.update(i, x);
    assert forall|s: u8| #[trigger] has_slot(w, s) == has_slot(v, s) by {
        if has_slot(v, s) {
            let j = choose|j: int| 0 <= j < v.len() && (#[trigger] v[j]).0 == s;
            assert(w[j].0 == s);
        }
        if has_slot(w, s) {
            let j = choose|j: int| 0 <= j < w.len() && (#[trigger] w[j]).0 == s;
            assert(v[j].0 == s);
        }
    }
    assert forall|s: u8| has_slot(w, s) implies #[trigger] slot_profile(w, s) == (if s == x.0 {
        x.1.profile_id@
    } else {
        slot_profile(v, s)
    }) by {
        let j = choose|j: int| 0 <= j < w.len() && (#[trigger] w[j]).0 == s;
        if s != x.0 {
            let k = choose|k: int| 0 <= k < v.len() && (#[trigger] v[k]).0 == s;
            assert(j == k);
        } else {
            assert(j == i);
        }
    }
    assert(has_slot(v, x.0)) by {
        assert(v[i].0 == x.0);
    }
}

proof fn lemma_slots_remove(v: Seq<(u8, SlotAssignment)>, i: int)
    requires
        unique_slots(v),
        0 <= i < v.len(),
    ensures
        unique_slots(v.remove(i)),
        slots_map(v.remove(i)) =~= slots_map(v).remove(v[i].0),
{
    let w = v.remove(i);
    let key = v[i].0;
    assert forall|s: u8| #[trigger] has_slot(w, s) == (has_slot(v, s) && s != key) by {
        if has_slot(w, s) {
            let j = choose|j: int| 0 <= j < w.len() && (#[trigger] w[j]).0 == s;
            if j < i {
                assert(v[j].0 == s);
            } else {
                assert(v[j + 1].0 == s);
            }
        }
        if has_slot(v, s) && s != key {
            let j = choose|j: int| 0 <= j < v.len() && (#[trigger] v[j]).0 == s;
            if j < i {
                assert(w[j].0 == s);
            } else {
                assert(j != i);
                assert(w[j - 1].0 == s);
            }
        }
    }
    assert forall|s: u8| has_slot(w, s) implies #[trigger] slot_profile(w, s) == slot_profile(v, s) by {
        let j = choose|j: int| 0 <= j < w.len() && (#[trigger] w[j]).0 == s;
        let k = choose|k: int| 0 <= k < v.len() && (#[trigger] v[k]).0 == s;
        if j < i {
            assert(v[j].0 == s);
            assert(j == k);
        } else {
            assert(v[j + 1].0 == s);
            assert(j + 1 == k);
        }
    }
    assert forall|a: int, b: int| 0 <= a < b < w.len() implies (#[trigger] w[a]).0 != (#[trigger] w[b]).0 by {
        let a2 = if a < i { a } else { a + 1 };
        let b2 = if b < i { b } else { b + 1 };
        assert(w[a] == v[a2]);
        assert(w[b] == v[b2]);
    }
}

fn find_slot(v: &Vec<(u8, SlotAssignment)>, slot: u8) -> (r: Option<usize>)
    ensures
        r matches Some(i) ==> i < v@.len() && v@[i as int].0 == slot,
        r is None ==> !has_slot(v@, slot),
{
    let mut i: usize = 0;
    while i < v.len()
        invariant
            i <= v@.len(),
            forall|j: int| 0 <= j < i ==> (#[trigger] v@[j]).0 != slot,
        decreases v@.len() - i,
    {
        if v[i].0 == slot {
            return Some(i);
        }
        i = i + 1;
    }
    None
}

proof fn lemma_device_push(v: Seq<(String, DeviceSlots)>, x: (String, DeviceSlots))
    requires
        devices_wf(v),
        !has_device(v, x.0@),
        x.1.wf(),
    ensures
        devices_wf(v.push(x)),
        Map::new(|id: Seq<char>| has_device(v.push(x), id), |id: Seq<char>| device_slots(v.push(x), id)@)
            =~= Map::new(|id: Seq<char>| has_device(v, id), |id: Seq<char>| device_slots(v, id)@).insert(x.0@, x.1@),
{
    let w = v.push(x);
    assert forall|id: Seq<char>| #[trigger] has_device(w, id) == (has_device(v, id) || id == x.0@) by {
        if has_device(v, id) {
            let i = choose|i: int| 0 <= i < v.len() && (#[trigger] v[i]).0@ == id;
            assert(w[i].0@ == id);
        }
        if id == x.0@ {
            assert(w[v.len() as int].0@ == id);
        }
    }
    assert forall|id: Seq<char>| has_device(w, id) implies #[trigger] device_slots(w, id) == (if id == x.0@ {
        x.1
    } else {
        device_slots(v, id)
    }) by {
        let i = choose|i: int| 0 <= i < w.len() && (#[trigger] w[i]).0@ == id;
        if id == x.0@ {
            if i < v.len() {
                assert(v[i].0@ == id);
            }
        } else {
            let j = choose|j: int| 0 <= j < v.len() && (#[trigger] v[j]).0@ == id;
            assert(w[j].0@ == id);
        }
    }
}

proof fn lemma_device_remove(v: Seq<(String, DeviceSlots)>, i: int)
    requires
        devices_wf(v),
        0 <= i < v.len(),
    ensures
        devices_wf(v.remove(i)),
        Map::new(|id: Seq<char>| has_device(v.remove(i), id), |id: Seq<char>| device_slots(v.remove(i), id)@)
            =~= Map::new(|id: Seq<char>| has_device(v, id), |id: Seq<char>| device_slots(v, id)@).remove(v[i].0@),
{
    let w = v.remove(i);
    let key = v[i].0@;
    assert forall|id: Seq<char>| #[trigger] has_device(w, id) == (has_device(v, id) && id != key) by {
        if has_device(w, id) {
            let j = choose|j: int| 0 <= j < w.len() && (#[trigger] w[j]).0@ == id;
            if j < i {
                assert(v[j].0@ == id);
            } else {
                assert(v[j + 1].0@ == id);
            }
        }
        if has_device(v, id) && id != key {
            let j = choose|j: int| 0 <= j < v.len() && (#[trigger] v[j]).0@ == id;
            if j < i {
                assert(w[j].0@ == id);
            } else {
                assert(j != i);
                assert(w[j - 1].0@ == id);
            }
        }
    }
    assert forall|id: Seq<char>| has_device(w, id) implies #[trigger] device_slots(w, id) == device_slots(v, id) by {
        let j = choose|j: int| 0 <= j < w.len() && (#[trigger] w[j]).0@ == id;
        let k = choose|k: int| 0 <= k < v.len() && (#[trigger] v[k]).0@ == id;
        if j < i {
            assert(v[j].0@ == id);
            assert(j == k);
        } else {
            assert(v[j + 1].0@ == id);
            assert(j + 1 == k);
        }
    }
    assert forall|a: int, b: int| 0 <= a < b < w.len() implies (#[trigger] w[a]).0@ != (#[trigger] w[b]).0@ by {
        let a2 = if a < i { a } else { a + 1 };
        let b2 = if b < i { b } else { b + 1 };
        assert(w[a] == v[a2]);
        assert(w[b] == v[b2]);
    }
    assert forall|a: int| 0 <= a < w.len() implies (#[trigger] w[a]).1.wf() by {
        let a2 = if a < i { a } else { a + 1 };
        assert(w[a] == v[a2]);
    }
}

fn find_device(v: &Vec<(String, DeviceSlots)>, id: &str) -> (r: Option<usize>)
    ensures
        r matches Some(i) ==> i < v@.len() && v@[i as int].0@ == id@,
        r is None ==> !has_device(v@, id@),
{
    let target = chars_of(id);
    let mut i: usize = 0;
    while i < v.len()
        invariant
            i <= v@.len(),
            target@ == id@,
            forall|j: int| 0 <= j < i ==> (#[trigger] v@[j]).0@ != id@,
        decreases v@.len() - i,
    {
        let k = chars_of(v[i].0.as_str());
        if chars_eq(&k, &target) {
            return Some(i);
        }
        i = i + 1;
    }
    None
}

impl Default for DeviceSlots {
    fn default() -> (r: DeviceSlots)
        ensures
            r.wf(),
            r@.selected_slot is None,
            r@.slots == Map::<u8, Seq<char>>::empty(),
    {
        DeviceSlots::new(None)
    }
}

impl Default for SlotStore {
    fn default() -> (r: SlotStore)
        ensures
            r.wf(),
            r@ == Map::<Seq<char>, DeviceSlotsModel>::empty(),
    {
        SlotStore::new()
    }
}

impl SlotStore {
    pub closed spec fn wf(&self) -> bool {
        devices_wf(self.devices@)
    }

    /// Records a device's slots, replacing what the store held for it.
    pub fn set_device(&mut self, device_id: &str, slots: DeviceSlots)
        requires
            old(self).wf(),
            slots.wf(),
        ensures
            final(self).wf(),
            final(self)@ == old(self)@.insert(device_id@, slots@),
    {
        let ghost before = self@;
        let _ = self.take_device(device_id);
        self.put_device(device_id, slots);
        proof {
            if before.contains_key(device_id@) {
                assert(before.remove(device_id@).insert(device_id@, slots@) =~= before.insert(device_id@, slots@));
            }
        }
    }

    /// A store with no device.
    pub fn new() -> (r: SlotStore)
        ensures
            r.wf(),
            r@ == Map::<Seq<char>, DeviceSlotsModel>::empty(),
    {
        let r = SlotStore { devices: Vec::new() };
        assert(r@ =~= Map::<Seq<char>, DeviceSlotsModel>::empty());
        r
    }

    /// The devices and their slots.
    pub fn devices(&self) -> (r: &Vec<(String, DeviceSlots)>)
        requires
            self.wf(),
        ensures
            devices_wf(r@),
            devices_map(r@) == self@,
    {
        &self.devices
    }

    fn take_device(&mut self, device_id: &str) -> (r: DeviceSlots)
        requires
            old(self).wf(),
        ensures
            final(self).wf(),
            r.wf(),
            old(self)@.contains_key(device_id@) ==> r@ == old(self)@[device_id@] && final(self)@ == old(self)@.remove(device_id@),
            !old(self)@.contains_key(device_id@) ==> r@.selected_slot is None && r@.slots == Map::<u8, Seq<char>>::empty() && final(self)@ == old(self)@,
    {
        match find_device(&self.devices, device_id) {
            Some(i) => {
                proof {
                    lemma_device_remove(self.devices@, i as int);
                    assert(has_device(self.devices@, device_id@)) by {
                        assert(self.devices@[i as int].0@ == device_id@);
                    }
                    let k = choose|k: int| 0 <= k < self.devices@.len() && (#[trigger] self.devices@[k]).0@ == device_id@;
                    assert(k == i);
                }
                let (_, d) = self.devices.remove(i);
                d
            },
            None => {
                let d = DeviceSlots { selected_slot: None, slots: Vec::new() };
                assert(d@.slots =~= Map::<u8, Seq<char>>::empty());
                d
            },
        }
    }

    fn put_device(&mut self, device_id: &str, d: DeviceSlots)
        requires
            old(self).wf(),
            !old(self)@.contains_key(device_id@),
            d.wf(),
        ensures
            final(self).wf(),
            final(self)@ == old(self)@.insert(device_id@, d@),
    {
        let key = crate::text::string_from_chars(&chars_of(device_id));
        proof {
            lemma_device_push(self.devices@, (key, d));
        }
        self.devices.push((key, d));
    }

    /// Assigns a profile to a device's slot; a device with no selected slot
    /// selects it. Refused for a slot outside 1..=4, a blank device id or a
    /// blank profile id, checked in that order.
    pub fn assign_profile(&mut self, device_id: &str, slot: u8, profile_id: &str) -> (r: Result<(), SlotError>)
        requires
            old(self).wf(),
        ensures
            final(self).wf(),
            match request_error(device_id@, slot) {
                Some(e) => r == Err::<(), SlotError>(e) && final(self)@ == old(self)@,
                None => if trim(profile_id@).len() == 0 {
                    r == Err::<(), SlotError>(SlotError::EmptyProfileId) && final(self)@ == old(self)@
                } else {
                    r is Ok && final(self)@ == old(self)@.insert(
                        device_id@,
                        assigned(lookup(old(self)@, device_id@), slot, profile_id@),
                    )
                },
            },
    {
        validate_slot(slot)?;
        validate_device_id(device_id)?;
        if trim_str(profile_id).len() == 0 {
            return Err(SlotError::EmptyProfileId);
        }
        let ghost before = self@;
        let mut d = self.take_device(device_id);
        let assignment = SlotAssignment { profile_id: crate::text::string_from_chars(&chars_of(profile_id)) };
        let ghost old_slots = d.slots@;
        match find_slot(&d.slots, slot) {
            Some(i) => {
                proof {
                    lemma_slots_set(d.slots@, i as int, (slot, assignment));
                }
                d.slots.set(i, (slot, assignment));
            },
            None => {
                proof {
                    lemma_slots_push(d.slots@, (slot, assignment));
                }
                d.slots.push((slot, assignment));
            },
        }
        if d.selected_slot.is_none() {
            d.selected_slot = Some(slot);
        }
        proof {
            if !before.contains_key(device_id@) {
                assert(slots_map(old_slots) =~= Map::<u8, Seq<char>>::empty());
            }
            assert(d@ == assigned(lookup(before, device_id@), slot, profile_id@));
        }
        self.put_device(device_id, d);
        proof {
            if before.contains_key(device_id@) {
                assert(before.remove(device_id@).insert(device_id@, d@) =~= before.insert(device_id@, d@));
            }
        }
        Ok(())
    }

    /// Selects a device's slot. Refused for a slot outside 1..=4 or a blank
    /// device id.
    pub fn select_slot(&mut self, device_id: &str, slot: u8) -> (r: Result<(), SlotError>)
        requires
            old(self).wf(),
        ensures
            final(self).wf(),
            match request_error(device_id@, slot) {
                Some(e) => r == Err::<(), SlotError>(e) && final(self)@ == old(self)@,
                None => r is Ok && final(self)@ == old(self)@.insert(
                    device_id@,
                    selected(lookup(old(self)@, device_id@), slot),
                ),
            },
    {
        validate_slot(slot)?;
        validate_device_id(device_id)?;
        let ghost before = self@;
        let mut d = self.take_device(device_id);
        d.selected_slot = Some(slot);
        proof {
            assert(d@ == selected(lookup(before, device_id@), slot));
        }
        self.put_device(device_id, d);
        proof {
            if before.contains_key(device_id@) {
                assert(before.remove(device_id@).insert(device_id@, d@) =~= before.insert(device_id@, d@));
            }
        }
        Ok(())
    }

    /// Empties a device's slot; a device left with no slot and no selection
    /// is forgotten. Refused for a slot outside 1..=4 or a blank device id.
    pub fn clear_slot(&mut self, device_id: &str, slot: u8) -> (r: Result<(), SlotError>)
        requires
            old(self).wf(),
        ensures
            final(self).wf(),
            match request_error(device_id@, slot) {
                Some(e) => r == Err::<(), SlotError>(e) && final(self)@ == old(self)@,
                None => r is Ok && final(self)@ == cleared(old(self)@, device_id@, slot),
            },
    {
        validate_slot(slot)?;
        validate_device_id(device_id)?;
        let ghost before = self@;
        let i = match find_device(&self.devices, device_id) {
            Some(i) => i,
            None => {
                return Ok(());
            },
        };
        let mut d = self.take_device(device_id);
        let ghost old_map = d@.slots;
        match find_slot(&d.slots, slot) {
            Some(j) => {
                proof {
                    lemma_slots_remove(d.slots@, j as int);
                }
                d.slots.remove(j);
            },
            None => {
                assert(old_map.remove(slot) =~= old_map);
            },
        }
        assert(d@.slots == old_map.remove(slot));
        if d.slots.len() == 0 && d.selected_slot.is_none() {
            assert(d@.slots.dom() =~= Set::<u8>::empty());
            return Ok(());
        }
        proof {
            if d.slots@.len() > 0 {
                assert(has_slot(d.slots@, d.slots@[0].0));
                assert(d@.slots.dom().contains(d.slots@[0].0));
                assert(d@.slots.dom() != Set::<u8>::empty());
            }
        }
        self.put_device(device_id, d);
        proof {
            assert(before.remove(device_id@).insert(device_id@, d@) =~= before.insert(device_id@, d@));
        }
        Ok(())
    }

    /// The selected slot of a device: its choice when it made a valid one,
    /// else slot 1.
    pub fn selected_slot(&self, device_id: &str) -> (r: u8)
        requires
            self.wf(),
        ensures
            r == (match lookup(self@, device_id@) {
                Some(d) => match d.selected_slot {
                    Some(s) => if valid_slot(s) {
                        s
                    } else {
                        DEFAULT_SELECTED_SLOT
                    },
                    None => DEFAULT_SELECTED_SLOT,
                },
                None => DEFAULT_SELECTED_SLOT,
            }),
    {
        match find_device(&self.devices, device_id) {
            Some(i) => {
                proof {
                    assert(has_device(self.devices@, device_id@)) by {
                        assert(self.devices@[i as int].0@ == device_id@);
                    }
                    let k = choose|k: int| 0 <= k < self.devices@.len() && (#[trigger] self.devices@[k]).0@ == device_id@;
                    assert(k == i);
                }
                match self.devices[i].1.selected_slot {
                    Some(s) => if 1 <= s && s <= SLOT_COUNT {
                        s
                    } else {
                        DEFAULT_SELECTED_SLOT
                    },
                    None => DEFAULT_SELECTED_SLOT,
                }
            },
            None => DEFAULT_SELECTED_SLOT,
        }
    }

    /// The profile id a device's slot holds; none for a slot outside 1..=4.
    pub fn profile_for_slot(&self, device_id: &str, slot: u8) -> (r: Option<&str>)
        requires
            self.wf(),
        ensures
            match r {
                Some(p) => valid_slot(slot) && self@.contains_key(device_id@) && self@[device_id@].slots.contains_key(slot)
                    && p@ == self@[device_id@].slots[slot],
                None => !valid_slot(slot) || !self@.contains_key(device_id@) || !self@[device_id@].slots.contains_key(slot),
            },
    {
        if !(1 <= slot && slot <= SLOT_COUNT) {
            return None;
        }
        let i = match find_device(&self.devices, device_id) {
            Some(i) => i,
            None => {
                return None;
            },
        };
        proof {
            assert(has_device(self.devices@, device_id@)) by {
                assert(self.devices@[i as int].0@ == device_id@);
            }
            let k = choose|k: int| 0 <= k < self.devices@.len() && (#[trigger] self.devices@[k]).0@ == device_id@;
            assert(k == i);
        }
        let d = &self.devices[i].1;
        match find_slot(&d.slots, slot) {
            Some(j) => {
                proof {
                    assert(has_slot(d.slots@, slot)) by {
                        assert(d.slots@[j as int].0 == slot);
                    }
                    let k = choose|k: int| 0 <= k < d.slots@.len() && (#[trigger] d.slots@[k]).0 == slot;
                    assert(k == j);
                }
                Some(d.slots[j].1.profile_id.as_str())
            },
            None => None,
        }
    }
}

// ---------------------------------------------------------------------------
// Reading back what was written

/// Assigning a profile to a slot is read back: the device's slot then holds
/// that profile, its other slots and every other device are unchanged, and
/// its selected slot is kept (or becomes this slot when it had none).
pub proof fn law_assign_then_read(store: Map<Seq<char>, DeviceSlotsModel>, device: Seq<char>, slot: u8, profile: Seq<char>)
    ensures
        ({
            let after = store.insert(device, assigned(lookup(store, device), slot, profile));
            &&& after.contains_key(device)
            &&& after[device].slots.contains_key(slot)
            &&& after[device].slots[slot] == profile
            &&& forall|s: u8| s != slot ==> lookup(after[device].slots, s) == (match lookup(store, device) {
                Some(d) => lookup(d.slots, s),
                None => None,
            })
            &&& after[device].selected_slot == (match lookup(store, device) {
                Some(d) => if d.selected_slot is Some { d.selected_slot } else { Some(slot) },
                None => Some(slot),
            })
            &&& forall|other: Seq<char>| other != device ==> lookup(after, other) == lookup(store, other)
        }),
{
}

/// Selecting a slot is read back: the device then selects that slot, keeps
/// its slots, and every other device is unchanged.
pub proof fn law_select_then_read(store: Map<Seq<char>, DeviceSlotsModel>, device: Seq<char>, slot: u8)
    ensures
        ({
            let after = store.insert(device, selected(lookup(store, device), slot));
            &&& after[device].selected_slot == Some(slot)
            &&& after[device].slots == (match lookup(store, device) {
                Some(d) => d.slots,
                None => Map::empty(),
            })
            &&& forall|other: Seq<char>| other != device ==> lookup(after, other) == lookup(store, other)
        }),
{
}

/// Clearing a slot empties it: the device then holds no profile in that
/// slot, its other slots and its selection are kept, and every other device
/// is unchanged.
pub proof fn law_clear_then_read(store: Map<Seq<char>, DeviceSlotsModel>, device: Seq<char>, slot: u8)
    ensures
        ({
            let after = cleared(store, device, slot);
            &&& after.contains_key(device) ==> !after[device].slots.contains_key(slot)
            &&& store.contains_key(device) && after.contains_key(device) ==> {
                &&& after[device].selected_slot == store[device].selected_slot
                &&& forall|s: u8| s != slot ==> lookup(after[device].slots, s) == lookup(store[device].slots, s)
            }
            &&& store.contains_key(device) && !after.contains_key(device) ==> {
                &&& store[device].selected_slot is None
                &&& forall|s: u8| s != slot ==> !store[device].slots.contains_key(s)
            }
            &&& !store.contains_key(device) ==> after == store
            &&& forall|other: Seq<char>| other != device ==> lookup(after, other) == lookup(store, other)
        }),
{
    let after = cleared(store, device, slot);
    if store.contains_key(device) {
        let d = store[device];
        let slots = d.slots.remove(slot);
        if slots.dom() == Set::<u8>::empty() && d.selected_slot is None {
            assert forall|s: u8| s != slot implies !store[device].slots.contains_key(s) by {
                assert(!slots.dom().contains(s));
            }
        }
    }
}

/// The text of a slot error.
pub open spec fn slot_error_text(e: SlotError) -> Seq<char> {
    match e {
        SlotError::InvalidSlot => "slot must be between 1 and "@ + crate::text::decimal(SLOT_COUNT as nat),
        SlotError::EmptyDeviceId => "slot device id cannot be empty"@,
        SlotError::EmptyProfileId => "slot profile id cannot be empty"@,
    }
}

impl SlotError {
    /// The error's message.
    pub fn message(&self) -> (r: String)
        ensures
            r@ == slot_error_text(*self),
    {
        match self {
            SlotError::InvalidSlot => {
                let digits = crate::text::decimal_chars(SLOT_COUNT as u128);
                let text = crate::text::concat_chars(&chars_of("slot must be between 1 and "), &digits);
                crate::text::string_from_chars(&text)
            },
            SlotError::EmptyDeviceId => "slot device id cannot be empty".to_owned(),
            SlotError::EmptyProfileId => "slot profile id cannot be empty".to_owned(),
        }
    }
}

} // verus!
