//! Counter-context channel: message serialization, acknowledgement and
//! open-failure decisions.

use lamina::ctx::PMCContext;
use lamina::ctx::ERRNO_ACCESS_DENIED;
use lamina::ctx::ERRNO_NOT_PRESENT;
use lamina::event::Event;
use lamina::pmc::PerfCtlDescriptor;

#[test]
fn fresh_context_is_empty() {
    let ctx = PMCContext::from_fd(3);
    assert_eq!(ctx.fd, 3);
    let msg = ctx.message();
    assert_eq!(msg.ctl, vec![0u64; 6]);
}

#[test]
fn write_serializes_six_words_in_slot_order() {
    let desc = PerfCtlDescriptor::new().set(0, Event::ExRetInstr(0)).set(3, Event::Merge);
    let mut ctx = PMCContext::from_fd(3);
    let msg = ctx.write(&desc);
    assert_eq!(msg.ctl.len(), 6);
    assert_eq!(msg.ctl[0], 0x0000_0041_00c0);
    assert_eq!(msg.ctl[1], 0);
    assert_eq!(msg.ctl[2], 0);
    assert_eq!(msg.ctl[3], 0x000f_0040_00ff);
    assert_eq!(msg.ctl[4], 0);
    assert_eq!(msg.ctl[5], 0);
}

#[test]
fn clear_produces_the_all_zero_message() {
    let desc = PerfCtlDescriptor::new().set(0, Event::ExRetInstr(0));
    let mut ctx = PMCContext::from_fd(3);
    let _ = ctx.write(&desc);
    let msg = ctx.clear();
    assert_eq!(msg.ctl, vec![0u64; 6]);
    // The context forgot the old descriptor as well.
    assert_eq!(ctx.message().ctl, vec![0u64; 6]);
}

#[test]
fn nonzero_acknowledgement_is_an_error() {
    assert!(PMCContext::ack_result(-1).is_err());
    assert_eq!(PMCContext::ack_result(-7).unwrap_err(), "ioctl() returned non-zero");
    assert_eq!(PMCContext::ack_result(1).unwrap_err(), "ioctl() returned non-zero");
    assert!(PMCContext::ack_result(7).is_err());
    assert!(PMCContext::ack_result(0).is_ok());
}

#[test]
fn absent_endpoint_reports_not_present() {
    assert_eq!(PMCContext::open_error(ERRNO_NOT_PRESENT), "Kernel module not loaded?");
    assert_eq!(PMCContext::open_error(ERRNO_ACCESS_DENIED), "Permission denied?");
}
