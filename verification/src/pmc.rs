//! Bit-exact encoding and decoding of counter control words.
//!
//! [PerfCtl] wraps the value of one counter-control register; every bit field
//! has an accessor and a mutator that works read-modify-write through a
//! per-field mask, so setting one field never perturbs another.
//! [PerfCtlDescriptor] is the set of all six control words at an instant.

use vstd::prelude::*;
use crate::event::Event;

verus! {

// Field layout of a control word, low bits first:
//
//   41                                                    0
//    v                                                    v
//    hh rrrr eeee cccccccc v n r i r g oo mmmmmmmm eeeeeeee
//
//   [7:0]   event select, low eight bits
//   [15:8]  unit mask
//   [17:16] OS/user scope
//   [18]    edge detect
//   [20]    interrupt on overflow
//   [22]    enable
//   [23]    invert count mask
//   [31:24] count mask
//   [35:32] event select, high four bits
//   [41:40] host/guest scope

/// "Count only host/guest events"
pub const HOSTGUEST_MASK: u64 = 0x0300_0000_0000;
/// "Performance event select [11:8]"
pub const EVTSEL_HI_MASK: u64 = 0x000F_0000_0000;
/// "Controls the number of events counted per clock cycle"
pub const CNTMASK_MASK: u64 = 0x0000_FF00_0000;
/// "Invert counter mask"
pub const INV_MASK: u64 = 0x0000_0080_0000;
/// "Enable performance counter"
pub const EN_MASK: u64 = 0x0000_0040_0000;
/// "Enable APIC interrupt"
pub const INT_MASK: u64 = 0x0000_0010_0000;
/// "Edge detect"
pub const EDGE_MASK: u64 = 0x0000_0004_0000;
/// "OS and user mode"
pub const OSUSER_MASK: u64 = 0x0000_0003_0000;
/// "Event qualification"
pub const UNITMASK_MASK: u64 = 0x0000_0000_FF00;
/// "Event select [7:0]"
pub const EVTSEL_LO_MASK: u64 = 0x0000_0000_00FF;

/// The host/guest field decoded from a control word.
pub open spec fn spec_hostguest(w: u64) -> u64 {
    (w & HOSTGUEST_MASK) >> 40
}

/// The full 12-bit event select decoded from a control word.
pub open spec fn spec_event_select(w: u64) -> u64 {
    ((w & EVTSEL_HI_MASK) >> 24) | (w & EVTSEL_LO_MASK)
}

/// The count mask decoded from a control word.
pub open spec fn spec_count_mask(w: u64) -> u64 {
    (w & CNTMASK_MASK) >> 24
}

/// The invert bit decoded from a control word.
pub open spec fn spec_inv(w: u64) -> bool {
    (w & INV_MASK) != 0
}

/// The enable bit decoded from a control word.
pub open spec fn spec_en(w: u64) -> bool {
    (w & EN_MASK) != 0
}

/// The interrupt bit decoded from a control word.
pub open spec fn spec_int(w: u64) -> bool {
    (w & INT_MASK) != 0
}

/// The edge-detect bit decoded from a control word.
pub open spec fn spec_edge(w: u64) -> bool {
    (w & EDGE_MASK) != 0
}

/// The OS/user field decoded from a control word.
pub open spec fn spec_osuser(w: u64) -> u64 {
    (w & OSUSER_MASK) >> 16
}

/// The unit mask decoded from a control word.
pub open spec fn spec_unit_mask(w: u64) -> u64 {
    (w & UNITMASK_MASK) >> 8
}

/// The control word encoding an ordinary event: select and unit mask from the
/// event, the given enable bit, user-only scope, and every other field zero.
pub open spec fn spec_encode(sel: u16, mask: u8, en: bool) -> u64 {
    (((sel & 0xf00) as u64) << 24) | ((sel & 0xff) as u64) | ((if en { 1u64 } else { 0u64 })
        << 22) | 0x1_0000 | ((mask as u64) << 8)
}

/// The control word encoding the merge event: only the enable bit and the
/// reserved all-ones event select are set.
pub open spec fn spec_encode_merge(en: bool) -> u64 {
    (0xf00u64 << 24) | 0xffu64 | ((if en { 1u64 } else { 0u64 }) << 22)
}

/// Decoding recovers from an encoded control word exactly the event select
/// (clamped to its 12-bit field), the unit mask and the enable bit that were
/// supplied; every other field holds its documented default: host/guest all
/// zero, count mask zero, invert, interrupt and edge clear, scope user-only.
pub proof fn lemma_codec_round_trip(sel: u16, mask: u8, en: bool)
    by (bit_vector)
    ensures
        spec_event_select(spec_encode(sel, mask, en)) == (sel & 0xfff) as u64,
        spec_unit_mask(spec_encode(sel, mask, en)) == mask as u64,
        spec_en(spec_encode(sel, mask, en)) == en,
        spec_hostguest(spec_encode(sel, mask, en)) == 0,
        spec_count_mask(spec_encode(sel, mask, en)) == 0,
        !spec_inv(spec_encode(sel, mask, en)),
        !spec_int(spec_encode(sel, mask, en)),
        !spec_edge(spec_encode(sel, mask, en)),
        spec_osuser(spec_encode(sel, mask, en)) == 1,
{
}

/// Decoding the merge control word gives the reserved all-ones event select,
/// the enable bit supplied, and every other field zero.
pub proof fn lemma_merge_round_trip(en: bool)
    by (bit_vector)
    ensures
        spec_event_select(spec_encode_merge(en)) == 0xfff,
        spec_unit_mask(spec_encode_merge(en)) == 0,
        spec_en(spec_encode_merge(en)) == en,
        spec_hostguest(spec_encode_merge(en)) == 0,
        spec_count_mask(spec_encode_merge(en)) == 0,
        !spec_inv(spec_encode_merge(en)),
        !spec_int(spec_encode_merge(en)),
        !spec_edge(spec_encode_merge(en)),
        spec_osuser(spec_encode_merge(en)) == 0,
{
}

/// The control word programmed for an event when a slot is assigned: the
/// merge event takes its special encoding, every other event its ordinary
/// encoding, with the enable bit set.
pub open spec fn spec_slot_word(e: Event) -> u64 {
    if e == Event::Merge {
        spec_encode_merge(true)
    } else {
        spec_encode(e.spec_convert().0, e.spec_convert().1, true)
    }
}

/// Wrapper type for the set of all six control words at an instant.
///
/// Slots are indexed 0 to 5. The descriptor is immutable-by-replacement:
/// [PerfCtlDescriptor::set] consumes the old value and hands back the new
/// one, so a previously issued descriptor stays valid for inspection.
#[derive(Clone, Debug)]
pub struct PerfCtlDescriptor {
    pub events: Vec<Option<Event>>,
    pub ctl: Vec<Option<PerfCtl>>,
}

impl PerfCtlDescriptor {
    /// Both columns hold exactly six slots, and a slot has a control word
    /// exactly when it has an event.
    pub open spec fn wf(self) -> bool {
        &&& self.events.len() == 6
        &&& self.ctl.len() == 6
        &&& forall|i: int| 0 <= i < 6 ==> (self.events[i] is Some <==> self.ctl[i] is Some)
    }

    /// The 64-bit control word of a slot; zero for an empty slot.
    pub open spec fn spec_get(self, i: int) -> u64 {
        match self.ctl[i] {
            Some(c) => c.0,
            None => 0,
        }
    }

    /// Create a new, empty descriptor.
    pub fn new() -> (r: Self)
        ensures
            r.wf(),
            forall|i: int| 0 <= i < 6 ==> r.events[i] is None && r.ctl[i] is None,
    {
        let mut events: Vec<Option<Event>> = Vec::new();
        let mut ctl: Vec<Option<PerfCtl>> = Vec::new();
        let mut k: usize = 0;
        while k < 6
            invariant
                events.len() == k,
                ctl.len() == k,
                k <= 6,
                forall|i: int| 0 <= i < k ==> events[i] is None && ctl[i] is None,
            decreases 6 - k,
        {
            events.push(None);
            ctl.push(None);
            k = k + 1;
        }
        Self { events, ctl }
    }

    /// Clear all entries.
    pub fn clear_all(&mut self)
        ensures
            final(self).wf(),
            forall|i: int| 0 <= i < 6 ==> final(self).events[i] is None && final(self).ctl[i]
                is None,
    {
        let cleared = Self::new();
        self.events = cleared.events;
        self.ctl = cleared.ctl;
    }

    /// Return the 64-bit control word for a slot (zero if the slot is empty).
    pub fn get(&self, idx: usize) -> (r: u64)
        requires
            self.wf(),
            idx < 6,
        ensures
            r == self.spec_get(idx as int),
    {
        if let Some(ctl) = self.ctl[idx] {
            ctl.0
        } else {
            0
        }
    }

    /// Clear (zero out) a particular entry.
    pub fn clear(&mut self, idx: usize)
        requires
            old(self).wf(),
            idx < 6,
        ensures
            final(self).wf(),
            final(self).events[idx as int] is None,
            final(self).ctl[idx as int] is None,
            forall|j: int|
                0 <= j < 6 && j != idx ==> final(self).events[j] == old(self).events[j]
                    && final(self).ctl[j] == old(self).ctl[j],
    {
        self.ctl.set(idx, None);
        self.events.set(idx, None);
    }

    /// Set a particular entry, programming the slot's control word for the
    /// event with the enable bit set.
    ///
    /// The index must be in range, and the merge event must only be assigned
    /// to odd-numbered slots (its semantics are defined only when it is
    /// paired with the preceding even-numbered counter).
    pub fn set(self, idx: usize, e: Event) -> (r: Self)
        requires
            self.wf(),
            idx < 6,
            !(e == Event::Merge && idx % 2 == 0),
        ensures
            r.wf(),
            r.events[idx as int] == Some(e),
            r.ctl[idx as int] == Some(PerfCtl(spec_slot_word(e))),
            r.spec_get(idx as int) == spec_slot_word(e),
            forall|j: int|
                0 <= j < 6 && j != idx ==> r.events[j] == self.events[j] && r.ctl[j] == self.ctl[j],
    {
        let mut s = self;
        if matches!(e, Event::Merge) {
            s.ctl.set(idx, Some(PerfCtl::new_merge(true)));
        } else {
            s.ctl.set(idx, Some(PerfCtl::new(e, true)));
        }
        s.events.set(idx, Some(e));
        s
    }

    /// Produce a copy of this descriptor, slot for slot.
    pub fn duplicate(&self) -> (r: Self)
        ensures
            r.events@ == self.events@,
            r.ctl@ == self.ctl@,
    {
        let mut events: Vec<Option<Event>> = Vec::new();
        let mut k: usize = 0;
        while k < self.events.len()
            invariant
                k <= self.events.len(),
                events@ == self.events@.take(k as int),
            decreases self.events.len() - k,
        {
            events.push(self.events[k]);
            proof {
                assert(events@ =~= self.events@.take(k + 1));
            }
            k = k + 1;
        }
        let mut ctl: Vec<Option<PerfCtl>> = Vec::new();
        let mut m: usize = 0;
        while m < self.ctl.len()
            invariant
                m <= self.ctl.len(),
                ctl@ == self.ctl@.take(m as int),
            decreases self.ctl.len() - m,
        {
            ctl.push(self.ctl[m]);
            proof {
                assert(ctl@ =~= self.ctl@.take(m + 1));
            }
            m = m + 1;
        }
        proof {
            assert(events@ =~= self.events@);
            assert(ctl@ =~= self.ctl@);
        }
        Self { events, ctl }
    }

    /// Set a particular entry, rejecting invalid requests instead of
    /// requiring them away: an index past the last slot always fails, the
    /// merge event on an even-numbered slot always fails, and every other
    /// request succeeds and returns the updated descriptor.
    pub fn try_set(self, idx: usize, e: Event) -> (r: Result<Self, &'static str>)
        requires
            self.wf(),
        ensures
            r is Ok <==> (idx < 6 && !(e == Event::Merge && idx % 2 == 0)),
            r matches Ok(d) ==> {
                &&& d.wf()
                &&& d.events[idx as int] == Some(e)
                &&& d.ctl[idx as int] == Some(PerfCtl(spec_slot_word(e)))
                &&& forall|j: int|
                    0 <= j < 6 && j != idx ==> d.events[j] == self.events[j] && d.ctl[j]
                        == self.ctl[j]
            },
    {
        if idx >= 6 {
            Err("counter index out of range")
        } else if matches!(e, Event::Merge) && idx % 2 == 0 {
            Err("Merge behavior undefined for even-numbered counters")
        } else {
            Ok(self.set(idx, e))
        }
    }
}

/// Representing the host/guest field in a [PerfCtl] register.
#[derive(Clone, Copy, Debug)]
pub enum HostGuestBits {
    All,
    SVMEGuest,
    SVMEHost,
    SVMEAll,
}

impl HostGuestBits {
    /// The two-bit encoding of this field value.
    pub open spec fn spec_bits(self) -> u64 {
        match self {
            HostGuestBits::All => 0,
            HostGuestBits::SVMEGuest => 1,
            HostGuestBits::SVMEHost => 2,
            HostGuestBits::SVMEAll => 3,
        }
    }

    /// Return the two-bit encoding of this field value.
    pub fn bits(self) -> (r: u64)
        ensures
            r == self.spec_bits(),
            r < 4,
    {
        match self {
            HostGuestBits::All => 0,
            HostGuestBits::SVMEGuest => 1,
            HostGuestBits::SVMEHost => 2,
            HostGuestBits::SVMEAll => 3,
        }
    }
}

/// Representing the OS/user field in a [PerfCtl] register.
#[derive(Clone, Copy, Debug)]
pub enum OSUserBits {
    Neither,
    User,
    OS,
    All,
}

impl OSUserBits {
    /// The two-bit encoding of this field value.
    pub open spec fn spec_bits(self) -> u64 {
        match self {
            OSUserBits::Neither => 0,
            OSUserBits::User => 1,
            OSUserBits::OS => 2,
            OSUserBits::All => 3,
        }
    }

    /// Return the two-bit encoding of this field value.
    pub fn bits(self) -> (r: u64)
        ensures
            r == self.spec_bits(),
            r < 4,
    {
        match self {
            OSUserBits::Neither => 0,
            OSUserBits::User => 1,
            OSUserBits::OS => 2,
            OSUserBits::All => 3,
        }
    }
}

/// Wrapper type for the value of one counter-control register.
#[derive(Clone, Copy, Debug, PartialEq, Eq, Structural)]
pub struct PerfCtl(pub u64);

// Setting one field leaves every other field unchanged: each of the following
// lemmas states, for one mutator, the decoded value of all ten fields of the
// updated word.

proof fn lemma_set_hostguest(w: u64, v: u64)
    by (bit_vector)
    requires
        v < 4,
    ensures
        spec_hostguest((w & !HOSTGUEST_MASK) | (v << 40)) == v,
        spec_event_select((w & !HOSTGUEST_MASK) | (v << 40)) == spec_event_select(w),
        spec_count_mask((w & !HOSTGUEST_MASK) | (v << 40)) == spec_count_mask(w),
        spec_inv((w & !HOSTGUEST_MASK) | (v << 40)) == spec_inv(w),
        spec_en((w & !HOSTGUEST_MASK) | (v << 40)) == spec_en(w),
        spec_int((w & !HOSTGUEST_MASK) | (v << 40)) == spec_int(w),
        spec_edge((w & !HOSTGUEST_MASK) | (v << 40)) == spec_edge(w),
        spec_osuser((w & !HOSTGUEST_MASK) | (v << 40)) == spec_osuser(w),
        spec_unit_mask((w & !HOSTGUEST_MASK) | (v << 40)) == spec_unit_mask(w),
{
}

proof fn lemma_set_event_select(w: u64, x: u16)
    by (bit_vector)
    ensures
        spec_event_select(
            (w & !(EVTSEL_HI_MASK | EVTSEL_LO_MASK)) | (((x as u64) & 0xf00) << 24) | ((x as u64)
                & 0xff),
        ) == ((x & 0xfff) as u64),
        spec_hostguest(
            (w & !(EVTSEL_HI_MASK | EVTSEL_LO_MASK)) | (((x as u64) & 0xf00) << 24) | ((x as u64)
                & 0xff),
        ) == spec_hostguest(w),
        spec_count_mask(
            (w & !(EVTSEL_HI_MASK | EVTSEL_LO_MASK)) | (((x as u64) & 0xf00) << 24) | ((x as u64)
                & 0xff),
        ) == spec_count_mask(w),
        spec_inv(
            (w & !(EVTSEL_HI_MASK | EVTSEL_LO_MASK)) | (((x as u64) & 0xf00) << 24) | ((x as u64)
                & 0xff),
        ) == spec_inv(w),
        spec_en(
            (w & !(EVTSEL_HI_MASK | EVTSEL_LO_MASK)) | (((x as u64) & 0xf00) << 24) | ((x as u64)
                & 0xff),
        ) == spec_en(w),
        spec_int(
            (w & !(EVTSEL_HI_MASK | EVTSEL_LO_MASK)) | (((x as u64) & 0xf00) << 24) | ((x as u64)
                & 0xff),
        ) == spec_int(w),
        spec_edge(
            (w & !(EVTSEL_HI_MASK | EVTSEL_LO_MASK)) | (((x as u64) & 0xf00) << 24) | ((x as u64)
                & 0xff),
        ) == spec_edge(w),
        spec_osuser(
            (w & !(EVTSEL_HI_MASK | EVTSEL_LO_MASK)) | (((x as u64) & 0xf00) << 24) | ((x as u64)
                & 0xff),
        ) == spec_osuser(w),
        spec_unit_mask(
            (w & !(EVTSEL_HI_MASK | EVTSEL_LO_MASK)) | (((x as u64) & 0xf00) << 24) | ((x as u64)
                & 0xff),
        ) == spec_unit_mask(w),
{
}

proof fn lemma_set_count_mask(w: u64, x: u64)
    by (bit_vector)
    ensures
        spec_count_mask((w & !CNTMASK_MASK) | ((x & 0xff) << 24)) == (x & 0xff),
        spec_hostguest((w & !CNTMASK_MASK) | ((x & 0xff) << 24)) == spec_hostguest(w),
        spec_event_select((w & !CNTMASK_MASK) | ((x & 0xff) << 24)) == spec_event_select(w),
        spec_inv((w & !CNTMASK_MASK) | ((x & 0xff) << 24)) == spec_inv(w),
        spec_en((w & !CNTMASK_MASK) | ((x & 0xff) << 24)) == spec_en(w),
        spec_int((w & !CNTMASK_MASK) | ((x & 0xff) << 24)) == spec_int(w),
        spec_edge((w & !CNTMASK_MASK) | ((x & 0xff) << 24)) == spec_edge(w),
        spec_osuser((w & !CNTMASK_MASK) | ((x & 0xff) << 24)) == spec_osuser(w),
        spec_unit_mask((w & !CNTMASK_MASK) | ((x & 0xff) << 24)) == spec_unit_mask(w),
{
}

proof fn lemma_set_bit(w: u64, mask: u64, shift: u64, x: bool)
    by (bit_vector)
    requires
        mask == 1u64 << shift,
        shift == 23 || shift == 22 || shift == 20 || shift == 18,
    ensures
        spec_hostguest((w & !mask) | ((if x { 1u64 } else { 0u64 }) << shift)) == spec_hostguest(w),
        spec_event_select((w & !mask) | ((if x { 1u64 } else { 0u64 }) << shift))
            == spec_event_select(w),
        spec_count_mask((w & !mask) | ((if x { 1u64 } else { 0u64 }) << shift)) == spec_count_mask(
            w,
        ),
        spec_osuser((w & !mask) | ((if x { 1u64 } else { 0u64 }) << shift)) == spec_osuser(w),
        spec_unit_mask((w & !mask) | ((if x { 1u64 } else { 0u64 }) << shift)) == spec_unit_mask(w),
        spec_inv((w & !mask) | ((if x { 1u64 } else { 0u64 }) << shift)) == (if shift == 23 {
            x
        } else {
            spec_inv(w)
        }),
        spec_en((w & !mask) | ((if x { 1u64 } else { 0u64 }) << shift)) == (if shift == 22 {
            x
        } else {
            spec_en(w)
        }),
        spec_int((w & !mask) | ((if x { 1u64 } else { 0u64 }) << shift)) == (if shift == 20 {
            x
        } else {
            spec_int(w)
        }),
        spec_edge((w & !mask) | ((if x { 1u64 } else { 0u64 }) << shift)) == (if shift == 18 {
            x
        } else {
            spec_edge(w)
        }),
{
}

proof fn lemma_set_osuser(w: u64, v: u64)
    by (bit_vector)
    requires
        v < 4,
    ensures
        spec_osuser((w & !OSUSER_MASK) | (v << 16)) == v,
        spec_hostguest((w & !OSUSER_MASK) | (v << 16)) == spec_hostguest(w),
        spec_event_select((w & !OSUSER_MASK) | (v << 16)) == spec_event_select(w),
        spec_count_mask((w & !OSUSER_MASK) | (v << 16)) == spec_count_mask(w),
        spec_inv((w & !OSUSER_MASK) | (v << 16)) == spec_inv(w),
        spec_en((w & !OSUSER_MASK) | (v << 16)) == spec_en(w),
        spec_int((w & !OSUSER_MASK) | (v << 16)) == spec_int(w),
        spec_edge((w & !OSUSER_MASK) | (v << 16)) == spec_edge(w),
        spec_unit_mask((w & !OSUSER_MASK) | (v << 16)) == spec_unit_mask(w),
{
}

proof fn lemma_set_unit_mask(w: u64, x: u8)
    by (bit_vector)
    ensures
        spec_unit_mask((w & !UNITMASK_MASK) | (((x as u64) & 0xff) << 8)) == x as u64,
        spec_hostguest((w & !UNITMASK_MASK) | (((x as u64) & 0xff) << 8)) == spec_hostguest(w),
        spec_event_select((w & !UNITMASK_MASK) | (((x as u64) & 0xff) << 8)) == spec_event_select(
            w,
        ),
        spec_count_mask((w & !UNITMASK_MASK) | (((x as u64) & 0xff) << 8)) == spec_count_mask(w),
        spec_inv((w & !UNITMASK_MASK) | (((x as u64) & 0xff) << 8)) == spec_inv(w),
        spec_en((w & !UNITMASK_MASK) | (((x as u64) & 0xff) << 8)) == spec_en(w),
        spec_int((w & !UNITMASK_MASK) | (((x as u64) & 0xff) << 8)) == spec_int(w),
        spec_edge((w & !UNITMASK_MASK) | (((x as u64) & 0xff) << 8)) == spec_edge(w),
        spec_osuser((w & !UNITMASK_MASK) | (((x as u64) & 0xff) << 8)) == spec_osuser(w),
{
}

proof fn lemma_zero_word()
    by (bit_vector)
    ensures
        spec_hostguest(0) == 0,
        spec_event_select(0) == 0,
        spec_count_mask(0) == 0,
        !spec_inv(0),
        !spec_en(0),
        !spec_int(0),
        !spec_edge(0),
        spec_osuser(0) == 0,
        spec_unit_mask(0) == 0,
{
}

impl PerfCtl {
    /// Decoded host/guest scope field.
    pub fn hostguest(&self) -> (r: u64)
        ensures
            r == spec_hostguest(self.0),
    {
        (self.0 & HOSTGUEST_MASK) >> 40
    }

    /// Decoded 12-bit event select.
    pub fn event_select(&self) -> (r: u64)
        ensures
            r == spec_event_select(self.0),
    {
        ((self.0 & EVTSEL_HI_MASK) >> 24) | (self.0 & EVTSEL_LO_MASK)
    }

    /// Decoded count mask.
    pub fn count_mask(&self) -> (r: u64)
        ensures
            r == spec_count_mask(self.0),
    {
        (self.0 & CNTMASK_MASK) >> 24
    }

    /// Decoded invert bit.
    pub fn inv(&self) -> (r: bool)
        ensures
            r == spec_inv(self.0),
    {
        (self.0 & INV_MASK) != 0
    }

    /// Decoded enable bit.
    pub fn en(&self) -> (r: bool)
        ensures
            r == spec_en(self.0),
    {
        (self.0 & EN_MASK) != 0
    }

    /// Decoded interrupt bit.
    pub fn intr(&self) -> (r: bool)
        ensures
            r == spec_int(self.0),
    {
        (self.0 & INT_MASK) != 0
    }

    /// Decoded edge-detect bit.
    pub fn edge(&self) -> (r: bool)
        ensures
            r == spec_edge(self.0),
    {
        (self.0 & EDGE_MASK) != 0
    }

    /// Decoded OS/user scope field.
    pub fn osuser(&self) -> (r: u64)
        ensures
            r == spec_osuser(self.0),
    {
        (self.0 & OSUSER_MASK) >> 16
    }

    /// Decoded unit mask.
    pub fn unit_mask(&self) -> (r: u64)
        ensures
            r == spec_unit_mask(self.0),
    {
        (self.0 & UNITMASK_MASK) >> 8
    }
}

impl PerfCtl {
    /// Create a new control word for an event.
    ///
    /// Defaults, unless overridden afterwards through the mutators: count
    /// only events from user space, fire no interrupts, and leave the
    /// virtualization scope, count-mask, invert and edge bits at zero.
    pub fn new(event: Event, en: bool) -> (r: Self)
        ensures
            r.0 == spec_encode(event.spec_convert().0, event.spec_convert().1, en),
    {
        let mut res = Self(0);
        let e = event.convert();
        res.set_hostguest(HostGuestBits::All);
        res.set_event_select(e.0);
        res.set_count_mask(0);
        res.set_inv(false);
        res.set_en(en);
        res.set_int(false);
        res.set_edge(false);
        res.set_osuser(OSUserBits::User);
        res.set_unit_mask(e.1);
        proof {
            let sel = event.spec_convert().0;
            let mask = event.spec_convert().1;
            let w1: u64 = (0u64 & !HOSTGUEST_MASK) | (0u64 << 40);
            let w2: u64 = (w1 & !(EVTSEL_HI_MASK | EVTSEL_LO_MASK)) | (((sel as u64) & 0xf00)
                << 24) | ((sel as u64) & 0xff);
            let w3: u64 = (w2 & !CNTMASK_MASK) | ((0u64 & 0xff) << 24);
            let w4: u64 = (w3 & !INV_MASK) | (0u64 << 23);
            let w5: u64 = (w4 & !EN_MASK) | ((if en {
                1u64
            } else {
                0u64
            }) << 22);
            let w6: u64 = (w5 & !INT_MASK) | (0u64 << 20);
            let w7: u64 = (w6 & !EDGE_MASK) | (0u64 << 18);
            let w8: u64 = (w7 & !OSUSER_MASK) | (1u64 << 16);
            let w9: u64 = (w8 & !UNITMASK_MASK) | (((mask as u64) & 0xff) << 8);
            assert(res.0 == w9);
            assert(w9 == spec_encode(sel, mask, en)) by (bit_vector)
                requires
                    w1 == (0u64 & !HOSTGUEST_MASK) | (0u64 << 40),
                    w2 == (w1 & !(EVTSEL_HI_MASK | EVTSEL_LO_MASK)) | (((sel as u64) & 0xf00)
                        << 24) | ((sel as u64) & 0xff),
                    w3 == (w2 & !CNTMASK_MASK) | ((0u64 & 0xff) << 24),
                    w4 == (w3 & !INV_MASK) | (0u64 << 23),
                    w5 == (w4 & !EN_MASK) | ((if en {
                        1u64
                    } else {
                        0u64
                    }) << 22),
                    w6 == (w5 & !INT_MASK) | (0u64 << 20),
                    w7 == (w6 & !EDGE_MASK) | (0u64 << 18),
                    w8 == (w7 & !OSUSER_MASK) | (1u64 << 16),
                    w9 == (w8 & !UNITMASK_MASK) | (((mask as u64) & 0xff) << 8),
            ;
        }
        res
    }

    /// Create a new control word for the merge event: all bits are unset
    /// except the enable bit and the reserved all-ones event select.
    pub fn new_merge(en: bool) -> (r: Self)
        ensures
            r.0 == spec_encode_merge(en),
    {
        let mut res = Self(0);
        res.set_event_select(Event::Merge.convert().0);
        res.set_en(en);
        proof {
            let v1: u64 = (0u64 & !(EVTSEL_HI_MASK | EVTSEL_LO_MASK)) | (((0xfffu16 as u64) & 0xf00)
                << 24) | ((0xfffu16 as u64) & 0xff);
            let v2: u64 = (v1 & !EN_MASK) | ((if en {
                1u64
            } else {
                0u64
            }) << 22);
            assert(res.0 == v2);
            assert(v2 == spec_encode_merge(en)) by (bit_vector)
                requires
                    v1 == (0u64 & !(EVTSEL_HI_MASK | EVTSEL_LO_MASK)) | (((0xfffu16 as u64) & 0xf00)
                        << 24) | ((0xfffu16 as u64) & 0xff),
                    v2 == (v1 & !EN_MASK) | ((if en {
                        1u64
                    } else {
                        0u64
                    }) << 22),
            ;
        }
        res
    }

    /// Zero the whole control word.
    pub fn clear(&mut self)
        ensures
            final(self).0 == 0,
    {
        self.0 = 0;
    }

    /// Set the host/guest field, leaving every other field unchanged.
    pub fn set_hostguest(&mut self, x: HostGuestBits)
        ensures
            final(self).0 == (old(self).0 & !HOSTGUEST_MASK) | (x.spec_bits() << 40),
            spec_hostguest(final(self).0) == x.spec_bits(),
            spec_event_select(final(self).0) == spec_event_select(old(self).0),
            spec_count_mask(final(self).0) == spec_count_mask(old(self).0),
            spec_inv(final(self).0) == spec_inv(old(self).0),
            spec_en(final(self).0) == spec_en(old(self).0),
            spec_int(final(self).0) == spec_int(old(self).0),
            spec_edge(final(self).0) == spec_edge(old(self).0),
            spec_osuser(final(self).0) == spec_osuser(old(self).0),
            spec_unit_mask(final(self).0) == spec_unit_mask(old(self).0),
    {
        proof {
            lemma_set_hostguest(self.0, x.spec_bits());
        }
        self.0 = (self.0 & !HOSTGUEST_MASK) | (x.bits() << 40);
    }

    /// Set the 12-bit event select (higher bits of `x` are ignored), leaving
    /// every other field unchanged.
    pub fn set_event_select(&mut self, x: u16)
        ensures
            final(self).0 == (old(self).0 & !(EVTSEL_HI_MASK | EVTSEL_LO_MASK)) | (((x as u64)
                & 0xf00) << 24) | ((x as u64) & 0xff),
            spec_event_select(final(self).0) == (x & 0xfff) as u64,
            spec_hostguest(final(self).0) == spec_hostguest(old(self).0),
            spec_count_mask(final(self).0) == spec_count_mask(old(self).0),
            spec_inv(final(self).0) == spec_inv(old(self).0),
            spec_en(final(self).0) == spec_en(old(self).0),
            spec_int(final(self).0) == spec_int(old(self).0),
            spec_edge(final(self).0) == spec_edge(old(self).0),
            spec_osuser(final(self).0) == spec_osuser(old(self).0),
            spec_unit_mask(final(self).0) == spec_unit_mask(old(self).0),
    {
        proof {
            lemma_set_event_select(self.0, x);
        }
        let y = x as u64;
        self.0 = (self.0 & !(EVTSEL_HI_MASK | EVTSEL_LO_MASK)) | ((y & 0xf00) << 24) | (y & 0xff);
    }

    /// Set the count mask (clamped to eight bits), leaving every other field
    /// unchanged.
    pub fn set_count_mask(&mut self, x: u64)
        ensures
            final(self).0 == (old(self).0 & !CNTMASK_MASK) | ((x & 0xff) << 24),
            spec_count_mask(final(self).0) == (x & 0xff),
            spec_hostguest(final(self).0) == spec_hostguest(old(self).0),
            spec_event_select(final(self).0) == spec_event_select(old(self).0),
            spec_inv(final(self).0) == spec_inv(old(self).0),
            spec_en(final(self).0) == spec_en(old(self).0),
            spec_int(final(self).0) == spec_int(old(self).0),
            spec_edge(final(self).0) == spec_edge(old(self).0),
            spec_osuser(final(self).0) == spec_osuser(old(self).0),
            spec_unit_mask(final(self).0) == spec_unit_mask(old(self).0),
    {
        proof {
            lemma_set_count_mask(self.0, x);
        }
        self.0 = (self.0 & !CNTMASK_MASK) | ((x & 0xff) << 24);
    }

    /// Set the invert bit, leaving every other field unchanged.
    pub fn set_inv(&mut self, x: bool)
        ensures
            final(self).0 == (old(self).0 & !INV_MASK) | ((if x { 1u64 } else { 0u64 }) << 23),
            spec_inv(final(self).0) == x,
            spec_hostguest(final(self).0) == spec_hostguest(old(self).0),
            spec_event_select(final(self).0) == spec_event_select(old(self).0),
            spec_count_mask(final(self).0) == spec_count_mask(old(self).0),
            spec_en(final(self).0) == spec_en(old(self).0),
            spec_int(final(self).0) == spec_int(old(self).0),
            spec_edge(final(self).0) == spec_edge(old(self).0),
            spec_osuser(final(self).0) == spec_osuser(old(self).0),
            spec_unit_mask(final(self).0) == spec_unit_mask(old(self).0),
    {
        proof {
            assert(INV_MASK == 1u64 << 23) by (bit_vector);
            lemma_set_bit(self.0, INV_MASK, 23, x);
        }
        self.0 = (self.0 & !INV_MASK) | ((if x { 1u64 } else { 0u64 }) << 23);
    }

    /// Set the enable bit, leaving every other field unchanged.
    pub fn set_en(&mut self, x: bool)
        ensures
            final(self).0 == (old(self).0 & !EN_MASK) | ((if x { 1u64 } else { 0u64 }) << 22),
            spec_en(final(self).0) == x,
            spec_hostguest(final(self).0) == spec_hostguest(old(self).0),
            spec_event_select(final(self).0) == spec_event_select(old(self).0),
            spec_count_mask(final(self).0) == spec_count_mask(old(self).0),
            spec_inv(final(self).0) == spec_inv(old(self).0),
            spec_int(final(self).0) == spec_int(old(self).0),
            spec_edge(final(self).0) == spec_edge(old(self).0),
            spec_osuser(final(self).0) == spec_osuser(old(self).0),
            spec_unit_mask(final(self).0) == spec_unit_mask(old(self).0),
    {
        proof {
            assert(EN_MASK == 1u64 << 22) by (bit_vector);
            lemma_set_bit(self.0, EN_MASK, 22, x);
        }
        self.0 = (self.0 & !EN_MASK) | ((if x { 1u64 } else { 0u64 }) << 22);
    }

    /// Set the interrupt bit, leaving every other field unchanged.
    pub fn set_int(&mut self, x: bool)
        ensures
            final(self).0 == (old(self).0 & !INT_MASK) | ((if x { 1u64 } else { 0u64 }) << 20),
            spec_int(final(self).0) == x,
            spec_hostguest(final(self).0) == spec_hostguest(old(self).0),
            spec_event_select(final(self).0) == spec_event_select(old(self).0),
            spec_count_mask(final(self).0) == spec_count_mask(old(self).0),
            spec_inv(final(self).0) == spec_inv(old(self).0),
            spec_en(final(self).0) == spec_en(old(self).0),
            spec_edge(final(self).0) == spec_edge(old(self).0),
            spec_osuser(final(self).0) == spec_osuser(old(self).0),
            spec_unit_mask(final(self).0) == spec_unit_mask(old(self).0),
    {
        proof {
            assert(INT_MASK == 1u64 << 20) by (bit_vector);
            lemma_set_bit(self.0, INT_MASK, 20, x);
        }
        self.0 = (self.0 & !INT_MASK) | ((if x { 1u64 } else { 0u64 }) << 20);
    }

    /// Set the edge-detect bit, leaving every other field unchanged.
    pub fn set_edge(&mut self, x: bool)
        ensures
            final(self).0 == (old(self).0 & !EDGE_MASK) | ((if x { 1u64 } else { 0u64 }) << 18),
            spec_edge(final(self).0) == x,
            spec_hostguest(final(self).0) == spec_hostguest(old(self).0),
            spec_event_select(final(self).0) == spec_event_select(old(self).0),
            spec_count_mask(final(self).0) == spec_count_mask(old(self).0),
            spec_inv(final(self).0) == spec_inv(old(self).0),
            spec_en(final(self).0) == spec_en(old(self).0),
            spec_int(final(self).0) == spec_int(old(self).0),
            spec_osuser(final(self).0) == spec_osuser(old(self).0),
            spec_unit_mask(final(self).0) == spec_unit_mask(old(self).0),
    {
        proof {
            assert(EDGE_MASK == 1u64 << 18) by (bit_vector);
            lemma_set_bit(self.0, EDGE_MASK, 18, x);
        }
        self.0 = (self.0 & !EDGE_MASK) | ((if x { 1u64 } else { 0u64 }) << 18);
    }

    /// Set the OS/user field, leaving every other field unchanged.
    pub fn set_osuser(&mut self, x: OSUserBits)
        ensures
            final(self).0 == (old(self).0 & !OSUSER_MASK) | (x.spec_bits() << 16),
            spec_osuser(final(self).0) == x.spec_bits(),
            spec_hostguest(final(self).0) == spec_hostguest(old(self).0),
            spec_event_select(final(self).0) == spec_event_select(old(self).0),
            spec_count_mask(final(self).0) == spec_count_mask(old(self).0),
            spec_inv(final(self).0) == spec_inv(old(self).0),
            spec_en(final(self).0) == spec_en(old(self).0),
            spec_int(final(self).0) == spec_int(old(self).0),
            spec_edge(final(self).0) == spec_edge(old(self).0),
            spec_unit_mask(final(self).0) == spec_unit_mask(old(self).0),
    {
        proof {
            lemma_set_osuser(self.0, x.spec_bits());
        }
        self.0 = (self.0 & !OSUSER_MASK) | (x.bits() << 16);
    }

    /// Set the unit mask, leaving every other field unchanged.
    pub fn set_unit_mask(&mut self, x: u8)
        ensures
            final(self).0 == (old(self).0 & !UNITMASK_MASK) | (((x as u64) & 0xff) << 8),
            spec_unit_mask(final(self).0) == x as u64,
            spec_hostguest(final(self).0) == spec_hostguest(old(self).0),
            spec_event_select(final(self).0) == spec_event_select(old(self).0),
            spec_count_mask(final(self).0) == spec_count_mask(old(self).0),
            spec_inv(final(self).0) == spec_inv(old(self).0),
            spec_en(final(self).0) == spec_en(old(self).0),
            spec_int(final(self).0) == spec_int(old(self).0),
            spec_edge(final(self).0) == spec_edge(old(self).0),
            spec_osuser(final(self).0) == spec_osuser(old(self).0),
    {
        proof {
            lemma_set_unit_mask(self.0, x);
        }
        let y = x as u64;
        self.0 = (self.0 & !UNITMASK_MASK) | ((y & 0xff) << 8);
    }
}

} // verus!
