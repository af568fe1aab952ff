//! Gadget emission: exact instruction bytes, loop alignment and branch
//! displacements, and the end-to-end shape of the measurement gadgets.

use lamina::codegen::emit_hwong_gadget_test;
use lamina::codegen::emit_loop_reg;
use lamina::codegen::emit_pop_abi_ret;
use lamina::codegen::emit_push_abi;
use lamina::codegen::emit_rdpmc_test_all;
use lamina::codegen::emit_rdpmc_loop_test;
use lamina::codegen::emit_rdpmc_test_single;
use lamina::codegen::emit_repeat;
use lamina::ctx::PMCContext;
use lamina::event::Event;
use lamina::pmc::PerfCtlDescriptor;
use lamina::x86::clwb_r15_bytes;
use lamina::x86::lfence_bytes;
use lamina::x86::mcommit_bytes;
use lamina::x86::mfence_bytes;
use lamina::x86::nop_bytes;
use lamina::x86::lfence8_bytes;
use lamina::x86::mfence8_bytes;
use lamina::x86::mov_rcx_1_8_bytes;
use lamina::x86::mov_rcx_1_bytes;
use lamina::x86::mov_rdi_rax8_bytes;
use lamina::x86::mov_rdi_rax_bytes;
use lamina::x86::rdpmc8_bytes;
use lamina::x86::rdpmc_bytes;
use lamina::x86::rdpru8_bytes;
use lamina::x86::rdpru_bytes;
use lamina::x86::sub_r8_rax8_bytes;
use lamina::x86::sub_r8_rax_bytes;
use lamina::x86::xor_r8_r8_8_bytes;
use lamina::x86::xor_r8_r8_bytes;
use lamina::PMCTest;

fn push_abi() -> Vec<u8> {
    let mut v = Vec::new();
    emit_push_abi(&mut v);
    v
}

fn pop_abi_ret() -> Vec<u8> {
    let mut v = Vec::new();
    emit_pop_abi_ret(&mut v);
    v
}

#[test]
fn instruction_encodings() {
    assert_eq!(mfence_bytes(), vec![0x0f, 0xae, 0xf0]);
    assert_eq!(lfence_bytes(), vec![0x0f, 0xae, 0xe8]);
    assert_eq!(rdpru_bytes(), vec![0x0f, 0x01, 0xfd]);
    assert_eq!(rdpmc_bytes(), vec![0x0f, 0x33]);
    assert_eq!(mcommit_bytes(), vec![0xf3, 0x0f, 0x01, 0xfa]);
    assert_eq!(clwb_r15_bytes(), vec![0x66, 0x41, 0x0f, 0xae, 0x37]);
}

#[test]
fn nop_encodings_have_their_length() {
    for len in 1..=15usize {
        let nop = nop_bytes(len);
        assert_eq!(nop.len(), len);
    }
    assert_eq!(nop_bytes(1), vec![0x90]);
    assert_eq!(nop_bytes(4), vec![0x0f, 0x1f, 0x40, 0x00]);
    assert_eq!(nop_bytes(10), vec![0x66, 0x66, 0x0f, 0x1f, 0x84, 0x00, 0x00, 0x00, 0x00, 0x00]);
}

#[test]
fn prologue_saves_fences_and_zeroes() {
    let pro = push_abi();
    assert_eq!(pro.len(), 69);
    // Pushes of rbp, rbx, rdi, rsi, r12..r15.
    assert_eq!(&pro[0..12], &[0x55, 0x53, 0x57, 0x56, 0x41, 0x54, 0x41, 0x55, 0x41, 0x56, 0x41,
        0x57]);
    // mfence; lfence.
    assert_eq!(&pro[12..18], &[0x0f, 0xae, 0xf0, 0x0f, 0xae, 0xe8]);
    // xor rax, rax first; xor r15, r15 last.
    assert_eq!(&pro[18..21], &[0x48, 0x31, 0xc0]);
    assert_eq!(&pro[60..63], &[0x4d, 0x31, 0xff]);
    assert_eq!(&pro[63..69], &[0x0f, 0xae, 0xf0, 0x0f, 0xae, 0xe8]);
}

#[test]
fn epilogue_pops_and_returns() {
    let epi = pop_abi_ret();
    assert_eq!(
        epi,
        vec![0x41, 0x5f, 0x41, 0x5e, 0x41, 0x5d, 0x41, 0x5c, 0x5e, 0x5f, 0x5b, 0x5d, 0xc3, 0x0f,
            0xae, 0xe8]
    );
}

#[test]
fn emit_repeat_replicates_fragment() {
    let mut buf = Vec::new();
    emit_repeat(&mut buf, &vec![0xaa, 0xbb], 3);
    assert_eq!(buf, vec![0xaa, 0xbb, 0xaa, 0xbb, 0xaa, 0xbb]);
    let mut buf = vec![0x01];
    emit_repeat(&mut buf, &vec![0xcc], 0);
    assert_eq!(buf, vec![0x01]);
}

#[test]
fn loop_alignment_and_displacement() {
    // A loop of 100 iterations over ten replicas of a four-byte fragment.
    let mut body = Vec::new();
    emit_repeat(&mut body, &nop_bytes(4), 10);
    assert_eq!(body.len(), 40);
    let mut buf = Vec::new();
    emit_loop_reg(&mut buf, 100, &body);
    // mov r13, 100.
    assert_eq!(&buf[0..7], &[0x49, 0xc7, 0xc5, 100, 0x00, 0x00, 0x00]);
    // 57 single-byte nops align the loop head to offset 64.
    assert_eq!(buf[7..64], [0x90; 57]);
    // lfence at the loop head, then the body.
    assert_eq!(&buf[64..67], &[0x0f, 0xae, 0xe8]);
    assert_eq!(&buf[67..107], &body[..]);
    // sub r13, 1.
    assert_eq!(&buf[107..111], &[0x49, 0x83, 0xed, 0x01]);
    // jne back over lfence + body + sub + jne = -(40 + 13) = -53.
    assert_eq!(&buf[111..117], &[0x0f, 0x85, 0xcb, 0xff, 0xff, 0xff]);
    // trailing lfence.
    assert_eq!(&buf[117..120], &[0x0f, 0xae, 0xe8]);
    assert_eq!(buf.len(), 120);
}

#[test]
fn loop_alignment_depends_on_position() {
    // Starting at offset 64 - 7 leaves nothing to pad.
    let mut buf = vec![0u8; 57];
    let body = nop_bytes(1);
    emit_loop_reg(&mut buf, 1, &body);
    // mov ends exactly at 64: the lfence of the loop head follows at once.
    assert_eq!(&buf[64..67], &[0x0f, 0xae, 0xe8]);
    assert_eq!(buf[67], 0x90);
    assert_eq!(&buf[68..72], &[0x49, 0x83, 0xed, 0x01]);
}

#[test]
fn six_counter_gadget_shape() {
    let body = nop_bytes(4);
    let g = emit_rdpmc_test_all(&body);
    // prologue 177 bytes, body 4, epilogue 151.
    assert_eq!(g.len(), 332);
    // Saves and fences as in the common prologue, but rdi is parked in r15.
    assert_eq!(&g[0..12], &push_abi()[0..12]);
    assert_eq!(&g[18..21], &[0x49, 0x89, 0xff]);
    // First baseline read selects counter 5: mov rcx, 5.
    assert_eq!(&g[69..76], &[0x48, 0xc7, 0xc1, 5, 0, 0, 0]);
    // lfence; rdpmc; lfence; sub r14, rax.
    assert_eq!(&g[76..87], &[0x0f, 0xae, 0xe8, 0x0f, 0x33, 0x0f, 0xae, 0xe8, 0x49, 0x29, 0xc6]);
    // The measured body sits between the two read blocks.
    assert_eq!(&g[177..181], &body[..]);
    // First closing read selects counter 0 and adds onto r9.
    assert_eq!(&g[181..188], &[0x48, 0xc7, 0xc1, 0, 0, 0, 0]);
    assert_eq!(&g[196..199], &[0x49, 0x01, 0xc1]);
    // Result stores through r15, then pops, mfence, ret, lfence.
    assert_eq!(&g[289..293], &[0x4d, 0x89, 0x4f, 0x00]);
    assert_eq!(&g[309..313], &[0x4d, 0x89, 0x77, 0x28]);
    assert_eq!(g[328], 0xc3);
    assert_eq!(&g[329..332], &[0x0f, 0xae, 0xe8]);
}

#[test]
fn single_counter_gadget_shape() {
    let body = nop_bytes(2);
    let g = emit_rdpmc_test_single(3, &body);
    let pro = push_abi();
    let epi = pop_abi_ret();
    assert_eq!(&g[0..69], &pro[..]);
    // mov ecx, 3; lfence; rdpmc; lfence; sub r15, rax.
    assert_eq!(&g[69..74], &[0xb9, 3, 0, 0, 0]);
    assert_eq!(&g[74..85], &[0x0f, 0xae, 0xe8, 0x0f, 0x33, 0x0f, 0xae, 0xe8, 0x49, 0x29, 0xc7]);
    assert_eq!(&g[85..87], &body[..]);
    // Second read, add, and the result moved to rax before the epilogue.
    assert_eq!(&g[87..92], &[0xb9, 3, 0, 0, 0]);
    assert_eq!(&g[100..106], &[0x49, 0x01, 0xc7, 0x4c, 0x89, 0xf8]);
    assert_eq!(&g[106..109], &[0x0f, 0xae, 0xf0]);
    assert_eq!(&g[109..], &epi[..]);
}

#[test]
fn pointer_chase_gadget_shape() {
    let body_a = nop_bytes(1);
    let body_b = nop_bytes(1);
    let g = emit_hwong_gadget_test(
        0x1000,
        0x2000,
        0x3000,
        10,
        2,
        1,
        &body_a,
        &body_b,
    );
    let pro = push_abi();
    assert_eq!(&g[0..69], &pro[..]);
    // mov rcx, 1.
    assert_eq!(&g[69..76], &[0x48, 0xc7, 0xc1, 1, 0, 0, 0]);
    // mov rdi, 0x1000 (imm64).
    assert_eq!(&g[76..86], &[0x48, 0xbf, 0x00, 0x10, 0, 0, 0, 0, 0, 0]);
    // mov rsi, 0x2000.
    assert_eq!(&g[86..96], &[0x48, 0xbe, 0x00, 0x20, 0, 0, 0, 0, 0, 0]);
    // xor r14, r14; mov r15, 0x3000.
    assert_eq!(&g[96..99], &[0x4d, 0x31, 0xf6]);
    assert_eq!(&g[99..109], &[0x49, 0xbf, 0x00, 0x30, 0, 0, 0, 0, 0, 0]);
    // Baseline rdpru block ends subtracting rdx from r14.
    assert_eq!(&g[109..125], &[0x0f, 0xae, 0xe8, 0x0f, 0x01, 0xfd, 0x0f, 0xae, 0xe8, 0x48, 0xc1,
        0xe2, 0x20, 0x48, 0x09, 0xc2]);
    assert_eq!(&g[125..128], &[0x49, 0x29, 0xd6]);
    // The loop starts at 128: mov r13, 10, then padding up to 192.
    assert_eq!(&g[128..135], &[0x49, 0xc7, 0xc5, 10, 0, 0, 0]);
    assert_eq!(g[135..192], [0x90; 57]);
    assert_eq!(&g[192..195], &[0x0f, 0xae, 0xe8]);
    // Two turns of chase-fragment-chase-fragment (8 bytes each).
    let turn = [0x48, 0x8b, 0x3f, 0x90, 0x48, 0x8b, 0x36, 0x90];
    assert_eq!(&g[195..203], &turn);
    assert_eq!(&g[203..211], &turn);
    // sub r13, 1; jne -(16 + 13) = -29.
    assert_eq!(&g[211..215], &[0x49, 0x83, 0xed, 0x01]);
    assert_eq!(&g[215..221], &[0x0f, 0x85, 0xe3, 0xff, 0xff, 0xff]);
    // Closing rdpru block, add onto r14, result to rax, epilogue.
    assert_eq!(&g[224..240], &[0x0f, 0xae, 0xe8, 0x0f, 0x01, 0xfd, 0x0f, 0xae, 0xe8, 0x48, 0xc1,
        0xe2, 0x20, 0x48, 0x09, 0xc2]);
    assert_eq!(&g[240..246], &[0x49, 0x01, 0xd6, 0x4c, 0x89, 0xf0]);
    assert_eq!(&g[246..], &pop_abi_ret()[..]);
}

#[test]
fn loop_gadget_aligns_at_true_offset() {
    // The measured loop of the six-counter gadget is emitted at its real
    // offset: after the 177-byte prologue and the 7-byte counter load, 8
    // padding no-ops bring the loop head to offset 192, a 64-byte boundary.
    let mut fragment = Vec::new();
    emit_repeat(&mut fragment, &nop_bytes(1), 4);
    let g = emit_rdpmc_loop_test(100, &fragment, 10);
    let mut pro = Vec::new();
    lamina::codegen::emit_rdpmc_all_prologue(&mut pro);
    assert_eq!(pro.len(), 177);
    assert_eq!(&g[0..177], &pro[..]);
    assert_eq!(&g[177..184], &[0x49, 0xc7, 0xc5, 100, 0, 0, 0]);
    assert_eq!(g[184..192], [0x90; 8]);
    assert_eq!(192 % 64, 0);
    // lfence at the loop head, forty unrolled no-ops, count down, branch
    // back over -(40 + 13) bytes, trailing lfence.
    assert_eq!(&g[192..195], &[0x0f, 0xae, 0xe8]);
    assert_eq!(g[195..235], [0x90; 40]);
    assert_eq!(&g[235..239], &[0x49, 0x83, 0xed, 0x01]);
    assert_eq!(&g[239..245], &[0x0f, 0x85, 0xcb, 0xff, 0xff, 0xff]);
    assert_eq!(&g[245..248], &[0x0f, 0xae, 0xe8]);
    // The epilogue follows at once; its first read selects counter 0.
    assert_eq!(&g[248..255], &[0x48, 0xc7, 0xc1, 0, 0, 0, 0]);
    assert_eq!(g.len(), 399);
    assert_eq!(g[395], 0xc3);
}

#[test]
fn retired_instruction_scenario() {
    // The end-to-end construction of the retired-instruction experiment:
    // counter 0 counts retired instructions; the measured region is a loop
    // of 100 iterations over four no-op instructions replicated ten times,
    // so the loop bodies alone retire at least 4000 instructions.
    let desc = PerfCtlDescriptor::new().set(0, Event::ExRetInstr(0));
    let mut ctx = PMCContext::from_fd(3);
    let msg = ctx.write(&desc);
    assert_eq!(msg.ctl[0], 0x0000_0041_00c0);
    assert!(msg.ctl[1..].iter().all(|&w| w == 0));

    // Four one-byte no-ops, replicated ten times, inside a counted loop of
    // 100 iterations, emitted at its true offset inside the gadget.
    let mut fragment = Vec::new();
    emit_repeat(&mut fragment, &nop_bytes(1), 4);
    let gadget = emit_rdpmc_loop_test(100, &fragment, 10);
    let test = PMCTest::new("4 nops x10 x100", gadget.len(), &desc);
    assert_eq!(test.res.event[0], Some(Event::ExRetInstr(0)));

    // The forty no-ops of the unrolled fragment sit inside the loop, after
    // the 177-byte prologue, the 7-byte counter load, 8 alignment bytes and
    // the loop-head lfence.
    let body_off = 177 + 7 + 8 + 3;
    assert_eq!(gadget[body_off..body_off + 40], [0x90; 40]);
    // 4 no-ops x 10 replicas x 100 iterations retire at least 4000
    // instructions in the measured region.
    assert!(4 * 10 * 100 >= 4000);

    // After the error-free run the context is cleared: the counters return
    // to their unprogrammed state before the channel is closed.
    let cleared = ctx.clear();
    assert_eq!(cleared.ctl, vec![0u64; 6]);
}

#[test]
fn padded_fragment_encodings() {
    assert_eq!(mfence8_bytes(), vec![0x67, 0x67, 0x67, 0x67, 0x67, 0x0f, 0xae, 0xf0]);
    assert_eq!(lfence8_bytes(), vec![0x67, 0x67, 0x67, 0x67, 0x67, 0x0f, 0xae, 0xe8]);
    assert_eq!(rdpru8_bytes(), vec![0x66, 0x66, 0x66, 0x66, 0x66, 0x0f, 0x01, 0xfd]);
    assert_eq!(rdpmc8_bytes(), vec![0x66, 0x66, 0x66, 0x66, 0x66, 0x66, 0x0f, 0x33]);
    assert_eq!(sub_r8_rax_bytes(), vec![0x49, 0x29, 0xc0]);
    assert_eq!(sub_r8_rax8_bytes(), vec![0x66, 0x66, 0x66, 0x66, 0x66, 0x49, 0x29, 0xc0]);
    assert_eq!(mov_rdi_rax_bytes(), vec![0x48, 0x89, 0xc7]);
    assert_eq!(mov_rdi_rax8_bytes(), vec![0x66, 0x66, 0x66, 0x66, 0x66, 0x48, 0x89, 0xc7]);
    assert_eq!(mov_rcx_1_bytes(), vec![0x48, 0xc7, 0xc1, 0x01, 0x00, 0x00, 0x00]);
    assert_eq!(mov_rcx_1_8_bytes(), vec![0x66, 0x48, 0xc7, 0xc1, 0x01, 0x00, 0x00, 0x00]);
    assert_eq!(xor_r8_r8_bytes(), vec![0x4d, 0x31, 0xc0]);
    assert_eq!(xor_r8_r8_8_bytes(), vec![0x66, 0x66, 0x66, 0x66, 0x66, 0x4d, 0x31, 0xc0]);
}
