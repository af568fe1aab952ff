//! Hardware performance-counter event definitions.
//!
//! Each [Event] names a countable hardware occurrence and maps to a pair of
//! an event-select code (12 bits) and a unit mask (8 bits). The set of events
//! is closed; undocumented raw codes are representable with
//! [Event::Undefined].

use vstd::prelude::*;

verus! {

/// Some property that characterizes an event.
#[derive(Clone, Copy, Debug)]
pub enum EventProperty {
    Retired,
    Dispatched,
}

/// Indicates the primitive type of a counter.
#[derive(Clone, Copy, Debug)]
pub enum CounterUnit {
    ClockCycle,
    Instruction(EventProperty),
    Op(EventProperty),
    UndefinedUnit,
}

impl CounterUnit {
    /// The name of this unit, as a sequence of characters.
    pub open spec fn spec_str(self) -> Seq<char> {
        match self {
            CounterUnit::ClockCycle => "Clock cycles"@,
            CounterUnit::Instruction(EventProperty::Retired) => "Retired instructions"@,
            CounterUnit::Instruction(EventProperty::Dispatched) => "Dispatched instructions"@,
            CounterUnit::Op(EventProperty::Retired) => "Retired ops"@,
            CounterUnit::Op(EventProperty::Dispatched) => "Dispatched ops"@,
            CounterUnit::UndefinedUnit => "Undefined"@,
        }
    }

    /// Return a human-readable name for this unit.
    pub fn to_str(&self) -> (r: &'static str)
        ensures
            r@ == self.spec_str(),
    {
        match self {
            CounterUnit::ClockCycle => "Clock cycles",
            CounterUnit::Instruction(p) => match p {
                EventProperty::Retired => "Retired instructions",
                EventProperty::Dispatched => "Dispatched instructions",
            },
            CounterUnit::Op(p) => match p {
                EventProperty::Retired => "Retired ops",
                EventProperty::Dispatched => "Dispatched ops",
            },
            CounterUnit::UndefinedUnit => "Undefined",
        }
    }
}

/// A description of an event: free text plus the unit being counted.
pub struct EventDesc {
    pub desc: &'static str,
    pub unit: CounterUnit,
}

/// A named hardware event.
///
/// An event selects a 12-bit code in a counter control word, optionally
/// qualified by an 8-bit unit mask selecting sub-events. [Event::Undefined]
/// carries a caller-supplied raw code (truncated to 12 bits on conversion),
/// and [Event::Merge] is a special non-maskable event whose semantics are
/// only defined on odd-numbered counter slots.
#[derive(Clone, Copy, Debug, PartialEq, Eq, Structural)]
#[allow(non_camel_case_types)]
pub enum Event {
    Undefined(u16, u8),
    Merge,

    LsLocks(u8),
    SpecLockHiSpec,
    SpecLockLoSpec,
    NonSpecLock,
    BusLock,

    LsRetCpuid(u8),

    LsDispatch(u8),
    LdStDispatch,
    StDispatch,
    LdDispatch,

    LsSmiRx(u8),
    LsIntTaken(u8),
    LsRdTsc(u8),
    LsSTLF(u8),
    LsPrefInstrDisp(u8),
    LsNotHaltedCyc(u8),

    BpL1BTBCorrect(u8),
    BpL2BTBCorrect(u8),
    BpDynIndPred(u8),
    BpDeReDirect(u8),

    DeSrcOpDisp(u8),
    OpCacheDispatched,
    DecoderDispatched,

    DeDisOpsFromDecoder(u8),

    DeDisDispatchTokenStalls1(u8),
    IntSchedulerMiscRsrcStall,
    StoreQueueRsrcStall,
    LoadQueueRsrcStall,
    IntPhyRegFileRsrcStall,

    DeDisDispatchTokenStalls0(u8),
    ScAguDispatchStall,
    RetireTokenStall,
    AGSQTokenStall,
    ALUTokenStall,
    ALSQ3_0_TokenStall,
    ALSQ2RsrcStall,
    ALSQ1RsrcStall,

    ExRetInstr(u8),
    ExRetCops(u8),
    ExRetBrn(u8),
    ExRetBrnMisp(u8),
    ExRetBrnResync(u8),
    ExRetNearRetMispred(u8),
    ExRetBrnIndMisp(u8),
}

impl Event {
    /// The (event-select, unit-mask) pair this event denotes.
    pub open spec fn spec_convert(self) -> (u16, u8) {
        match self {
            Event::Undefined(e, m)               => ((e & 0xfff), m),
            Event::Merge                         => (0xfff, 0x00),

            Event::LsLocks(m)                    => (0x0025, m),
            Event::SpecLockHiSpec                => (0x0025, 0x08),
            Event::SpecLockLoSpec                => (0x0025, 0x04),
            Event::NonSpecLock                   => (0x0025, 0x02),
            Event::BusLock                       => (0x0025, 0x01),

            Event::LsRetCpuid(m)                 => (0x0027, m),

            Event::LsDispatch(m)                 => (0x0029, m),
            Event::LdStDispatch                  => (0x0029, 0x04),
            Event::StDispatch                    => (0x0029, 0x02),
            Event::LdDispatch                    => (0x0029, 0x01),

            Event::LsSmiRx(m)                    => (0x002b, m),
            Event::LsIntTaken(m)                 => (0x002c, m),
            Event::LsRdTsc(m)                    => (0x002d, m),
            Event::LsSTLF(m)                     => (0x0035, m),
            Event::LsPrefInstrDisp(m)            => (0x004b, m),
            Event::LsNotHaltedCyc(m)             => (0x0076, m),

            Event::BpL1BTBCorrect(m)             => (0x008a, m),
            Event::BpL2BTBCorrect(m)             => (0x008b, m),
            Event::BpDynIndPred(m)               => (0x008e, m),
            Event::BpDeReDirect(m)               => (0x0091, m),

            Event::DeSrcOpDisp(m)                => (0x00aa, m),
            Event::OpCacheDispatched             => (0x00aa, 0x02),
            Event::DecoderDispatched             => (0x00aa, 0x01),

            Event::DeDisOpsFromDecoder(m)        => (0x00ab, m),

            Event::DeDisDispatchTokenStalls1(m)  => (0x00ae, m),
            Event::IntSchedulerMiscRsrcStall     => (0x00ae, 0x08),
            Event::StoreQueueRsrcStall           => (0x00ae, 0x04),
            Event::LoadQueueRsrcStall            => (0x00ae, 0x02),
            Event::IntPhyRegFileRsrcStall        => (0x00ae, 0x01),

            Event::DeDisDispatchTokenStalls0(m)  => (0x00af, m),
            Event::ScAguDispatchStall            => (0x00af, 0x40),
            Event::RetireTokenStall              => (0x00af, 0x20),
            Event::AGSQTokenStall                => (0x00af, 0x10),
            Event::ALUTokenStall                 => (0x00af, 0x08),
            Event::ALSQ3_0_TokenStall            => (0x00af, 0x03),
            Event::ALSQ2RsrcStall                => (0x00af, 0x02),
            Event::ALSQ1RsrcStall                => (0x00af, 0x01),

            Event::ExRetInstr(m)                 => (0x00c0, m),
            Event::ExRetCops(m)                  => (0x00c1, m),
            Event::ExRetBrn(m)                   => (0x00c2, m),
            Event::ExRetBrnMisp(m)               => (0x00c3, m),
            Event::ExRetBrnResync(m)             => (0x00c7, m),
            Event::ExRetNearRetMispred(m)        => (0x00c9, m),
            Event::ExRetBrnIndMisp(m)            => (0x00ca, m),
        }
    }

    /// Every event-select code fits in 12 bits.
    pub proof fn lemma_convert_in_range(self)
        ensures
            self.spec_convert().0 < 0x1000,
    {
        match self {
            Event::Undefined(e, m) => {
                assert((e & 0xfff) < 0x1000) by (bit_vector);
            },
            _ => {},
        }
    }

    /// Convert an [Event] into its (event-select, unit-mask) pair.
    pub fn convert(&self) -> (r: (u16, u8))
        ensures
            r == self.spec_convert(),
            r.0 < 0x1000,
    {
        proof {
            self.lemma_convert_in_range();
        }
        match self {
            Event::Undefined(e, m)               => (*e & 0xfff, *m),
            Event::Merge                         => (0xfff, 0x00),

            Event::LsLocks(m)                    => (0x0025, *m),
            Event::SpecLockHiSpec                => (0x0025, 0x08),
            Event::SpecLockLoSpec                => (0x0025, 0x04),
            Event::NonSpecLock                   => (0x0025, 0x02),
            Event::BusLock                       => (0x0025, 0x01),

            Event::LsRetCpuid(m)                 => (0x0027, *m),

            Event::LsDispatch(m)                 => (0x0029, *m),
            Event::LdStDispatch                  => (0x0029, 0x04),
            Event::StDispatch                    => (0x0029, 0x02),
            Event::LdDispatch                    => (0x0029, 0x01),

            Event::LsSmiRx(m)                    => (0x002b, *m),
            Event::LsIntTaken(m)                 => (0x002c, *m),
            Event::LsRdTsc(m)                    => (0x002d, *m),
            Event::LsSTLF(m)                     => (0x0035, *m),
            Event::LsPrefInstrDisp(m)            => (0x004b, *m),
            Event::LsNotHaltedCyc(m)             => (0x0076, *m),

            Event::BpL1BTBCorrect(m)             => (0x008a, *m),
            Event::BpL2BTBCorrect(m)             => (0x008b, *m),
            Event::BpDynIndPred(m)               => (0x008e, *m),
            Event::BpDeReDirect(m)               => (0x0091, *m),

            Event::DeSrcOpDisp(m)                => (0x00aa, *m),
            Event::OpCacheDispatched             => (0x00aa, 0x02),
            Event::DecoderDispatched             => (0x00aa, 0x01),

            Event::DeDisOpsFromDecoder(m)        => (0x00ab, *m),

            Event::DeDisDispatchTokenStalls1(m)  => (0x00ae, *m),
            Event::IntSchedulerMiscRsrcStall     => (0x00ae, 0x08),
            Event::StoreQueueRsrcStall           => (0x00ae, 0x04),
            Event::LoadQueueRsrcStall            => (0x00ae, 0x02),
            Event::IntPhyRegFileRsrcStall        => (0x00ae, 0x01),

            Event::DeDisDispatchTokenStalls0(m)  => (0x00af, *m),
            Event::ScAguDispatchStall            => (0x00af, 0x40),
            Event::RetireTokenStall              => (0x00af, 0x20),
            Event::AGSQTokenStall                => (0x00af, 0x10),
            Event::ALUTokenStall                 => (0x00af, 0x08),
            Event::ALSQ3_0_TokenStall            => (0x00af, 0x03),
            Event::ALSQ2RsrcStall                => (0x00af, 0x02),
            Event::ALSQ1RsrcStall                => (0x00af, 0x01),

            Event::ExRetInstr(m)                 => (0x00c0, *m),
            Event::ExRetCops(m)                  => (0x00c1, *m),
            Event::ExRetBrn(m)                   => (0x00c2, *m),
            Event::ExRetBrnMisp(m)               => (0x00c3, *m),
            Event::ExRetBrnResync(m)             => (0x00c7, *m),
            Event::ExRetNearRetMispred(m)        => (0x00c9, *m),
            Event::ExRetBrnIndMisp(m)            => (0x00ca, *m),
        }
    }

    /// The descriptive text documented for this event.
    pub open spec fn spec_desc_text(self) -> Seq<char> {
        match self {
            Event::LsPrefInstrDisp(_) => "Dispatched PREFETCH instructions (speculative)"@,
            Event::BpL1BTBCorrect(_) => "Branch redirects from L1 BTB (speculative)"@,
            Event::BpL2BTBCorrect(_) => "Branch redirects from L2 BTB (speculative)"@,
            Event::BpDynIndPred(_) => "Dynamic indirect branch predictions"@,
            Event::BpDeReDirect(_) => "Branch redirects from decoder"@,
            Event::DeDisOpsFromDecoder(_) => "Dispatched ops from decoder (speculative)"@,
            Event::ExRetInstr(_) => "Retired instructions"@,
            Event::ExRetCops(_) => "Retired ops"@,
            Event::ExRetBrn(_) => "Retired branch instructions"@,
            Event::ExRetBrnMisp(_) => "Retired branch instructions (mispredicted)"@,
            Event::ExRetNearRetMispred(_) => "Retired near-return instructions (mispredicted)"@,
            Event::ExRetBrnIndMisp(_) => "Retired indirect branch instructions (mispredicted)"@,
            _ => "No description provided"@,
        }
    }

    /// The counter unit documented for this event.
    pub open spec fn spec_desc_unit(self) -> CounterUnit {
        match self {
            Event::LsPrefInstrDisp(_) => CounterUnit::Instruction(EventProperty::Dispatched),
            Event::BpL1BTBCorrect(_) => CounterUnit::UndefinedUnit,
            Event::BpL2BTBCorrect(_) => CounterUnit::UndefinedUnit,
            Event::BpDynIndPred(_) => CounterUnit::UndefinedUnit,
            Event::BpDeReDirect(_) => CounterUnit::UndefinedUnit,
            Event::DeDisOpsFromDecoder(_) => CounterUnit::Op(EventProperty::Dispatched),
            Event::ExRetInstr(_) => CounterUnit::Instruction(EventProperty::Retired),
            Event::ExRetCops(_) => CounterUnit::Op(EventProperty::Retired),
            Event::ExRetBrn(_) => CounterUnit::Instruction(EventProperty::Retired),
            Event::ExRetBrnMisp(_) => CounterUnit::Instruction(EventProperty::Retired),
            Event::ExRetNearRetMispred(_) => CounterUnit::Instruction(EventProperty::Retired),
            Event::ExRetBrnIndMisp(_) => CounterUnit::Instruction(EventProperty::Retired),
            _ => CounterUnit::UndefinedUnit,
        }
    }

    /// Return a description of this event.
    pub fn desc(&self) -> (r: EventDesc)
        ensures
            r.desc@ == self.spec_desc_text(),
            r.unit == self.spec_desc_unit(),
    {
        match self {
            Event::LsPrefInstrDisp(_) => EventDesc {
                desc: "Dispatched PREFETCH instructions (speculative)",
                unit: CounterUnit::Instruction(EventProperty::Dispatched),
            },
            Event::BpL1BTBCorrect(_) => EventDesc {
                desc: "Branch redirects from L1 BTB (speculative)",
                unit: CounterUnit::UndefinedUnit,
            },
            Event::BpL2BTBCorrect(_) => EventDesc {
                desc: "Branch redirects from L2 BTB (speculative)",
                unit: CounterUnit::UndefinedUnit,
            },
            Event::BpDynIndPred(_) => EventDesc {
                desc: "Dynamic indirect branch predictions",
                unit: CounterUnit::UndefinedUnit,
            },
            Event::BpDeReDirect(_) => EventDesc {
                desc: "Branch redirects from decoder",
                unit: CounterUnit::UndefinedUnit,
            },
            Event::DeDisOpsFromDecoder(_) => EventDesc {
                desc: "Dispatched ops from decoder (speculative)",
                unit: CounterUnit::Op(EventProperty::Dispatched),
            },
            Event::ExRetInstr(_) => EventDesc {
                desc: "Retired instructions",
                unit: CounterUnit::Instruction(EventProperty::Retired),
            },
            Event::ExRetCops(_) => EventDesc {
                desc: "Retired ops",
                unit: CounterUnit::Op(EventProperty::Retired),
            },
            Event::ExRetBrn(_) => EventDesc {
                desc: "Retired branch instructions",
                unit: CounterUnit::Instruction(EventProperty::Retired),
            },
            Event::ExRetBrnMisp(_) => EventDesc {
                desc: "Retired branch instructions (mispredicted)",
                unit: CounterUnit::Instruction(EventProperty::Retired),
            },
            Event::ExRetNearRetMispred(_) => EventDesc {
                desc: "Retired near-return instructions (mispredicted)",
                unit: CounterUnit::Instruction(EventProperty::Retired),
            },
            Event::ExRetBrnIndMisp(_) => EventDesc {
                desc: "Retired indirect branch instructions (mispredicted)",
                unit: CounterUnit::Instruction(EventProperty::Retired),
            },
            _ => EventDesc {
                desc: "No description provided",
                unit: CounterUnit::UndefinedUnit,
            },
        }
    }
}

} // verus!
