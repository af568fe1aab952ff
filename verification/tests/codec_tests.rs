//! Control-word codec: encoding, decoding, field isolation, descriptor
//! slot rules.

use lamina::event::Event;
use lamina::pmc::HostGuestBits;
use lamina::pmc::OSUserBits;
use lamina::pmc::PerfCtl;
use lamina::pmc::PerfCtlDescriptor;

#[test]
fn encode_retired_instructions() {
    // ExRetInstr selects code 0xc0; enable bit 22, user-only scope bits 17:16.
    let ctl = PerfCtl::new(Event::ExRetInstr(0), true);
    assert_eq!(ctl.0, 0x0000_0041_00c0);
    assert_eq!(ctl.event_select(), 0xc0);
    assert_eq!(ctl.unit_mask(), 0);
    assert!(ctl.en());
    assert_eq!(ctl.osuser(), 1);
    assert_eq!(ctl.hostguest(), 0);
    assert_eq!(ctl.count_mask(), 0);
    assert!(!ctl.inv());
    assert!(!ctl.intr());
    assert!(!ctl.edge());
}

#[test]
fn encode_disabled_event() {
    let ctl = PerfCtl::new(Event::ExRetInstr(0), false);
    assert!(!ctl.en());
    assert_eq!(ctl.event_select(), 0xc0);
}

#[test]
fn encode_with_unit_mask() {
    // DeDisOpsFromDecoder(8): select 0xab, unit mask 0x08.
    let ctl = PerfCtl::new(Event::DeDisOpsFromDecoder(0x08), true);
    assert_eq!(ctl.event_select(), 0xab);
    assert_eq!(ctl.unit_mask(), 0x08);
}

#[test]
fn encode_high_select_bits() {
    // A raw code above 0xff exercises the split event-select field.
    let ctl = PerfCtl::new(Event::Undefined(0x5a3, 0x12), true);
    assert_eq!(ctl.event_select(), 0x5a3);
    assert_eq!(ctl.unit_mask(), 0x12);
    // High nibble of the select sits at bits 35:32.
    assert_eq!((ctl.0 >> 32) & 0xf, 0x5);
    assert_eq!(ctl.0 & 0xff, 0xa3);
}

#[test]
fn merge_word_is_enable_and_reserved_select() {
    let ctl = PerfCtl::new_merge(true);
    assert_eq!(ctl.0, 0x000f_0040_00ff);
    assert_eq!(ctl.event_select(), 0xfff);
    assert!(ctl.en());
    assert_eq!(ctl.unit_mask(), 0);
    assert_eq!(ctl.osuser(), 0);
    assert_eq!(ctl.count_mask(), 0);
    assert!(!ctl.inv() && !ctl.intr() && !ctl.edge());
}

#[test]
fn raw_codes_truncate_to_twelve_bits() {
    assert_eq!(Event::Undefined(0xf234, 5).convert(), (0x234, 5));
    let mut ctl = PerfCtl::new(Event::ExRetInstr(0), true);
    ctl.set_event_select(0xffff);
    assert_eq!(ctl.event_select(), 0xfff);
}

#[test]
fn field_isolation_under_every_setter() {
    let mut ctl = PerfCtl::new(Event::ExRetCops(0x3), true);
    let select = ctl.event_select();
    let mask = ctl.unit_mask();

    ctl.set_count_mask(0xab);
    assert_eq!(ctl.count_mask(), 0xab);
    assert_eq!(ctl.event_select(), select);
    assert_eq!(ctl.unit_mask(), mask);
    assert!(ctl.en());

    ctl.set_inv(true);
    assert!(ctl.inv());
    assert_eq!(ctl.count_mask(), 0xab);
    assert_eq!(ctl.event_select(), select);

    ctl.set_int(true);
    assert!(ctl.intr());
    assert!(ctl.inv());
    assert!(ctl.en());

    ctl.set_edge(true);
    assert!(ctl.edge());
    assert!(ctl.intr());

    ctl.set_hostguest(HostGuestBits::SVMEHost);
    assert_eq!(ctl.hostguest(), 2);
    assert_eq!(ctl.event_select(), select);
    assert_eq!(ctl.unit_mask(), mask);

    ctl.set_osuser(OSUserBits::All);
    assert_eq!(ctl.osuser(), 3);
    assert_eq!(ctl.hostguest(), 2);

    ctl.set_unit_mask(0x55);
    assert_eq!(ctl.unit_mask(), 0x55);
    assert_eq!(ctl.event_select(), select);
    assert_eq!(ctl.count_mask(), 0xab);
    assert!(ctl.edge() && ctl.intr() && ctl.inv() && ctl.en());

    ctl.set_en(false);
    assert!(!ctl.en());
    assert_eq!(ctl.unit_mask(), 0x55);
    assert_eq!(ctl.osuser(), 3);

    ctl.set_event_select(0x123);
    assert_eq!(ctl.event_select(), 0x123);
    assert_eq!(ctl.unit_mask(), 0x55);
    assert_eq!(ctl.count_mask(), 0xab);
}

#[test]
fn clear_zeroes_the_word() {
    let mut ctl = PerfCtl::new(Event::ExRetBrn(0xff), true);
    ctl.clear();
    assert_eq!(ctl.0, 0);
}

#[test]
fn empty_descriptor_reads_zero() {
    let d = PerfCtlDescriptor::new();
    for idx in 0..6 {
        assert_eq!(d.get(idx), 0);
    }
}

#[test]
fn descriptor_set_programs_one_slot() {
    let d = PerfCtlDescriptor::new().set(0, Event::ExRetInstr(0));
    assert_eq!(d.get(0), 0x0000_0041_00c0);
    for idx in 1..6 {
        assert_eq!(d.get(idx), 0);
    }
    assert_eq!(d.events[0], Some(Event::ExRetInstr(0)));
}

#[test]
fn descriptor_is_immutable_by_replacement() {
    let d0 = PerfCtlDescriptor::new().set(0, Event::ExRetInstr(0));
    let d1 = d0.duplicate().set(1, Event::ExRetCops(0));
    // The first descriptor still reads as before.
    assert_eq!(d0.get(1), 0);
    assert_ne!(d1.get(1), 0);
    assert_eq!(d0.get(0), d1.get(0));
}

#[test]
fn descriptor_clear_one_slot() {
    let mut d = PerfCtlDescriptor::new().set(0, Event::ExRetInstr(0)).set(
        3,
        Event::ExRetBrnMisp(0),
    );
    d.clear(0);
    assert_eq!(d.get(0), 0);
    assert_ne!(d.get(3), 0);
}

#[test]
fn descriptor_clear_all_slots() {
    let mut d = PerfCtlDescriptor::new().set(2, Event::LsRdTsc(0)).set(5, Event::Merge);
    d.clear_all();
    for idx in 0..6 {
        assert_eq!(d.get(idx), 0);
    }
}

#[test]
fn slot_index_out_of_range_is_rejected() {
    let d = PerfCtlDescriptor::new();
    assert_eq!(
        d.duplicate().try_set(6, Event::ExRetInstr(0)).unwrap_err(),
        "counter index out of range"
    );
    assert!(d.duplicate().try_set(100, Event::ExRetInstr(0)).is_err());
    assert!(d.try_set(5, Event::ExRetInstr(0)).is_ok());
}

#[test]
fn merge_event_only_on_odd_slots() {
    let d = PerfCtlDescriptor::new();
    for idx in [0usize, 2, 4] {
        assert_eq!(
            d.duplicate().try_set(idx, Event::Merge).unwrap_err(),
            "Merge behavior undefined for even-numbered counters"
        );
    }
    for idx in [1usize, 3, 5] {
        let r = d.duplicate().try_set(idx, Event::Merge);
        assert!(r.is_ok());
        assert_eq!(r.unwrap().get(idx), 0x000f_0040_00ff);
    }
}
