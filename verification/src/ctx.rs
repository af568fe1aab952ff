//! Conventions for managing interactions with the counter-programming
//! authority (a kernel-resident service reached through a character device).
//!
//! [PMCContext] keeps the state of one such channel: the handle number and
//! the most recently written [PerfCtlDescriptor]. The decisions — which six
//! words a write transmits, what an acknowledgement means, which error a
//! failed open reports — live here and are verified; opening the device and
//! pushing the message through it are I/O and stay with the embedding
//! program. The channel must be cleared (an all-zero message written) before
//! it is closed, so counters are never left running with stale
//! configuration.
//!
//! A single process should hold at most one open channel at a time; this is
//! a convention, not enforced here, and concurrent owners produce undefined
//! hardware state.

use vstd::prelude::*;
use crate::pmc::PerfCtlDescriptor;

verus! {

/// The errno value reported when the authority endpoint does not exist.
pub const ERRNO_NOT_PRESENT: i32 = 2;

/// The errno value reported when access to the endpoint is denied.
pub const ERRNO_ACCESS_DENIED: i32 = 13;

/// A message to the authority: the set of all six control-word values,
/// transmitted atomically.
pub struct LaminaMsg {
    pub ctl: Vec<u64>,
}

impl LaminaMsg {
    /// A message carries exactly six words.
    pub open spec fn wf(self) -> bool {
        self.ctl.len() == 6
    }

    /// The message spells out the descriptor word for word, in slot order.
    pub open spec fn matches_descriptor(self, d: PerfCtlDescriptor) -> bool {
        self.wf() && (forall|i: int| 0 <= i < 6 ==> self.ctl@[i] == d.spec_get(i))
    }

    /// Every word of the message is zero: the message that stops all
    /// counters.
    pub open spec fn all_clear(self) -> bool {
        self.wf() && (forall|i: int| 0 <= i < 6 ==> self.ctl@[i] == 0)
    }
}

/// Container for the current state of one channel to the authority.
pub struct PMCContext {
    /// Plain handle number of the open channel.
    pub fd: i32,
    /// The most recent set of control words.
    pub desc: PerfCtlDescriptor,
}

impl PMCContext {
    /// Wrap an already-opened channel handle; the descriptor starts out
    /// empty.
    pub fn from_fd(fd: i32) -> (r: Self)
        ensures
            r.fd == fd,
            r.desc.wf(),
            forall|i: int| 0 <= i < 6 ==> r.desc.events[i] is None && r.desc.ctl[i] is None,
    {
        Self { fd, desc: PerfCtlDescriptor::new() }
    }

    /// The error reported for a failed open of the authority endpoint: an
    /// absent endpoint means the kernel module is not loaded, a denied
    /// access means missing permission. Any other errno is unhandled and
    /// must be treated as fatal by the caller.
    pub fn open_error(errno: i32) -> (r: &'static str)
        requires
            errno == ERRNO_NOT_PRESENT || errno == ERRNO_ACCESS_DENIED,
        ensures
            errno == ERRNO_NOT_PRESENT ==> r@ == "Kernel module not loaded?"@,
            errno == ERRNO_ACCESS_DENIED ==> r@ == "Permission denied?"@,
    {
        if errno == ERRNO_NOT_PRESENT {
            "Kernel module not loaded?"
        } else {
            "Permission denied?"
        }
    }

    /// What a write acknowledgement from the authority means: zero is
    /// success, any non-zero acknowledgement is surfaced as an opaque error
    /// — counter programming is not idempotent-safe to blindly retry, so a
    /// rejected write must stop the experiment.
    pub fn ack_result(res: i32) -> (r: Result<(), &'static str>)
        ensures
            r is Ok <==> res == 0,
            r matches Err(m) ==> m@ == "ioctl() returned non-zero"@,
    {
        if res != 0 {
            Err("ioctl() returned non-zero")
        } else {
            Ok(())
        }
    }

    /// Serialize the current descriptor into the message the authority
    /// accepts: exactly six 64-bit words, in slot order, an empty slot
    /// reading as zero.
    pub fn message(&self) -> (r: LaminaMsg)
        requires
            self.desc.wf(),
        ensures
            r.matches_descriptor(self.desc),
    {
        let mut ctl: Vec<u64> = Vec::new();
        let mut idx: usize = 0;
        while idx < 6
            invariant
                self.desc.wf(),
                idx <= 6,
                ctl.len() == idx,
                forall|i: int| 0 <= i < idx ==> ctl@[i] == self.desc.spec_get(i),
            decreases 6 - idx,
        {
            ctl.push(self.desc.get(idx));
            idx = idx + 1;
        }
        LaminaMsg { ctl }
    }

    /// Take a new descriptor as the channel's state and produce the message
    /// that transmits it; the caller pushes the message through the channel
    /// and interprets the acknowledgement with [PMCContext::ack_result].
    pub fn write(&mut self, d: &PerfCtlDescriptor) -> (r: LaminaMsg)
        requires
            d.wf(),
        ensures
            final(self).fd == old(self).fd,
            final(self).desc.events@ == d.events@,
            final(self).desc.ctl@ == d.ctl@,
            r.matches_descriptor(*d),
    {
        self.desc = d.duplicate();
        let m = self.message();
        proof {
            assert forall|i: int| 0 <= i < 6 implies self.desc.spec_get(i) == d.spec_get(i) by {
                assert(self.desc.ctl@[i] == d.ctl@[i]);
            }
        }
        m
    }

    /// Clear the channel's descriptor and produce the all-zero message that
    /// stops every counter; writing it is the mandatory last step before the
    /// channel is closed.
    pub fn clear(&mut self) -> (r: LaminaMsg)
        ensures
            final(self).fd == old(self).fd,
            final(self).desc.wf(),
            forall|i: int|
                0 <= i < 6 ==> final(self).desc.events[i] is None && final(self).desc.ctl[i]
                    is None,
            r.all_clear(),
            r.matches_descriptor(final(self).desc),
    {
        self.desc.clear_all();
        let m = self.message();
        proof {
            assert forall|i: int| 0 <= i < 6 implies m.ctl@[i] == 0 by {
                assert(self.desc.ctl[i] is None);
                assert(self.desc.spec_get(i) == 0);
                assert(m.ctl@[i] == self.desc.spec_get(i));
            }
        }
        m
    }
}

} // verus!
