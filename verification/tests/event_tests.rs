//! Event catalog: conversion table and descriptions.

use lamina::event::CounterUnit;
use lamina::event::Event;
use lamina::event::EventProperty;

#[test]
fn conversion_table_entries() {
    assert_eq!(Event::Merge.convert(), (0xfff, 0x00));
    assert_eq!(Event::LsLocks(3).convert(), (0x0025, 3));
    assert_eq!(Event::SpecLockHiSpec.convert(), (0x0025, 0x08));
    assert_eq!(Event::BusLock.convert(), (0x0025, 0x01));
    assert_eq!(Event::LsRetCpuid(1).convert(), (0x0027, 1));
    assert_eq!(Event::LdStDispatch.convert(), (0x0029, 0x04));
    assert_eq!(Event::LsRdTsc(0).convert(), (0x002d, 0));
    assert_eq!(Event::LsSTLF(2).convert(), (0x0035, 2));
    assert_eq!(Event::LsNotHaltedCyc(0).convert(), (0x0076, 0));
    assert_eq!(Event::BpDeReDirect(0).convert(), (0x0091, 0));
    assert_eq!(Event::OpCacheDispatched.convert(), (0x00aa, 0x02));
    assert_eq!(Event::DeDisOpsFromDecoder(8).convert(), (0x00ab, 8));
    assert_eq!(Event::StoreQueueRsrcStall.convert(), (0x00ae, 0x04));
    assert_eq!(Event::IntPhyRegFileRsrcStall.convert(), (0x00ae, 0x01));
    assert_eq!(Event::RetireTokenStall.convert(), (0x00af, 0x20));
    assert_eq!(Event::ALSQ3_0_TokenStall.convert(), (0x00af, 0x03));
    assert_eq!(Event::ExRetInstr(0).convert(), (0x00c0, 0));
    assert_eq!(Event::ExRetCops(0).convert(), (0x00c1, 0));
    assert_eq!(Event::ExRetBrnMisp(0).convert(), (0x00c3, 0));
    assert_eq!(Event::ExRetBrnIndMisp(0).convert(), (0x00ca, 0));
}

#[test]
fn undefined_events_convert_to_themselves_masked() {
    assert_eq!(Event::Undefined(0x123, 0x45).convert(), (0x123, 0x45));
    assert_eq!(Event::Undefined(0xffff, 0).convert(), (0xfff, 0));
}

#[test]
fn documented_descriptions() {
    let d = Event::ExRetInstr(0).desc();
    assert_eq!(d.desc, "Retired instructions");
    assert_eq!(d.unit.to_str(), "Retired instructions");

    let d = Event::ExRetCops(0).desc();
    assert_eq!(d.desc, "Retired ops");
    assert_eq!(d.unit.to_str(), "Retired ops");

    let d = Event::DeDisOpsFromDecoder(0).desc();
    assert_eq!(d.desc, "Dispatched ops from decoder (speculative)");
    assert_eq!(d.unit.to_str(), "Dispatched ops");

    let d = Event::LsPrefInstrDisp(0).desc();
    assert_eq!(d.desc, "Dispatched PREFETCH instructions (speculative)");
    assert_eq!(d.unit.to_str(), "Dispatched instructions");

    let d = Event::BpDynIndPred(0).desc();
    assert_eq!(d.desc, "Dynamic indirect branch predictions");
    assert_eq!(d.unit.to_str(), "Undefined");
}

#[test]
fn undocumented_events_default_description() {
    let d = Event::LsLocks(0).desc();
    assert_eq!(d.desc, "No description provided");
    assert_eq!(d.unit.to_str(), "Undefined");
}

#[test]
fn counter_unit_names() {
    assert_eq!(CounterUnit::ClockCycle.to_str(), "Clock cycles");
    assert_eq!(CounterUnit::Instruction(EventProperty::Retired).to_str(), "Retired instructions");
    assert_eq!(
        CounterUnit::Instruction(EventProperty::Dispatched).to_str(),
        "Dispatched instructions"
    );
    assert_eq!(CounterUnit::Op(EventProperty::Retired).to_str(), "Retired ops");
    assert_eq!(CounterUnit::Op(EventProperty::Dispatched).to_str(), "Dispatched ops");
    assert_eq!(CounterUnit::UndefinedUnit.to_str(), "Undefined");
}
