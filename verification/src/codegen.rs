//! Byte-exact emission of measurement gadgets.
//!
//! Each function appends to (or returns) a plain byte buffer whose contents
//! the contract pins down byte for byte. The embedding program copies the
//! finished buffer into executable memory and calls it; nothing here touches
//! memory protection.
//!
//! Register-use conventions inside emitted code (a restricted calling
//! convention, distinct from the platform ABI):
//! - `R13` holds the loop counter of [emit_loop_reg];
//! - `R14` holds the timestamp or counter baseline;
//! - `RDI` and `RSI` hold the pointer-chasing targets, `R15` a free pointer
//!   (or, in the six-counter gadget, the result pointer);
//! - `RCX` must stay 1 while RDPRU reads APERF, and is clobbered by every
//!   RDPMC read.
//!
//! Measured regions are bracketed by `MFENCE`/`LFENCE`, so instruction
//! reordering across a measurement boundary is prevented and timing
//! differences are attributable to the enclosed fragment.

use vstd::prelude::*;
use crate::x86::append_bytes;
use crate::x86::lfence_bytes;
use crate::x86::mfence_bytes;
use crate::x86::rdpmc_bytes;
use crate::x86::rdpru_bytes;
use crate::x86::spec_lfence;
use crate::x86::spec_mfence;
use crate::x86::spec_rdpmc;
use crate::x86::spec_rdpru;

verus! {

/// The four bytes of `x`, least significant first.
pub open spec fn spec_le32(x: u32) -> Seq<u8> {
    seq![
        (x & 0xff) as u8,
        ((x >> 8) & 0xff) as u8,
        ((x >> 16) & 0xff) as u8,
        ((x >> 24) & 0xff) as u8,
    ]
}

/// The eight bytes of `x`, least significant first.
pub open spec fn spec_le64(x: u64) -> Seq<u8> {
    seq![
        (x & 0xff) as u8,
        ((x >> 8) & 0xff) as u8,
        ((x >> 16) & 0xff) as u8,
        ((x >> 24) & 0xff) as u8,
        ((x >> 32) & 0xff) as u8,
        ((x >> 40) & 0xff) as u8,
        ((x >> 48) & 0xff) as u8,
        ((x >> 56) & 0xff) as u8,
    ]
}

/// The two's-complement 32-bit image of `-v`, for a backward branch
/// displacement of `v` bytes.
pub open spec fn spec_neg32(v: int) -> u32 {
    (0x1_0000_0000 - v) as u32
}

/// `k` copies of `frag`, one after the other: the unrolled replication of a
/// measured fragment.
pub open spec fn repeat_frag(frag: Seq<u8>, k: nat) -> Seq<u8>
    decreases k,
{
    if k == 0 {
        Seq::empty()
    } else {
        repeat_frag(frag, (k - 1) as nat) + frag
    }
}

/// Replication multiplies length.
pub proof fn lemma_repeat_frag_len(frag: Seq<u8>, k: nat)
    ensures
        repeat_frag(frag, k).len() == k * frag.len(),
    decreases k,
{
    if k > 0 {
        lemma_repeat_frag_len(frag, (k - 1) as nat);
        assert(repeat_frag(frag, k).len() == repeat_frag(frag, (k - 1) as nat).len()
            + frag.len());
        assert(k * frag.len() == (k - 1) * frag.len() + frag.len()) by (nonlinear_arith)
            requires
                k >= 1,
        ;
    } else {
        assert(k * frag.len() == 0) by (nonlinear_arith)
            requires
                k == 0,
        ;
    }
}

/// `pad` single-byte no-operations.
pub open spec fn spec_nop_pad(pad: int) -> Seq<u8> {
    Seq::new(pad as nat, |i: int| 0x90u8)
}

/// How many padding bytes bring a buffer position up to the next 64-byte
/// boundary.
pub open spec fn spec_align64_pad(pos: int) -> int {
    (64 - pos % 64) % 64
}

/// `PUSH` of the callee-saved registers `RBP`, `RBX`, `RDI`, `RSI`, `R12`,
/// `R13`, `R14`, `R15`, in that order.
pub open spec fn spec_save_regs() -> Seq<u8> {
    seq![0x55, 0x53, 0x57, 0x56, 0x41, 0x54, 0x41, 0x55, 0x41, 0x56, 0x41, 0x57]
}

/// `XOR reg, reg` for every general-purpose register except `RSP` and
/// `R15`: `RAX`, `RBX`, `RCX`, `RDX`, `RSI`, `RDI`, `RBP`, then `R8` to
/// `R14`.
pub open spec fn spec_zero_regs_keep_r15() -> Seq<u8> {
    seq![
        0x48, 0x31, 0xc0, 0x48, 0x31, 0xdb, 0x48, 0x31, 0xc9, 0x48, 0x31, 0xd2, 0x48, 0x31, 0xf6,
        0x48, 0x31, 0xff, 0x48, 0x31, 0xed, 0x4d, 0x31, 0xc0, 0x4d, 0x31, 0xc9, 0x4d, 0x31, 0xd2,
        0x4d, 0x31, 0xdb, 0x4d, 0x31, 0xe4, 0x4d, 0x31, 0xed, 0x4d, 0x31, 0xf6,
    ]
}

/// `XOR reg, reg` for every general-purpose register except `RSP`.
pub open spec fn spec_zero_regs() -> Seq<u8> {
    spec_zero_regs_keep_r15() + seq![0x4d, 0x31, 0xff]
}

/// The common prologue: save the callee-saved registers, fence, zero every
/// general-purpose register but `RSP`, fence again — every invocation starts
/// from the same register state, removing caller state as a confound.
pub open spec fn spec_push_abi() -> Seq<u8> {
    spec_save_regs() + spec_mfence() + spec_lfence() + spec_zero_regs() + spec_mfence()
        + spec_lfence()
}

/// The common epilogue: `POP` the callee-saved registers back (`R15` first),
/// return, and fence behind the return.
pub open spec fn spec_pop_abi_ret() -> Seq<u8> {
    seq![0x41, 0x5f, 0x41, 0x5e, 0x41, 0x5d, 0x41, 0x5c, 0x5e, 0x5f, 0x5b, 0x5d, 0xc3, 0x0f, 0xae,
        0xe8]
}

/// `MOV R13, imm32`: load the loop counter.
pub open spec fn spec_mov_r13_imm32(iters: u32) -> Seq<u8> {
    seq![0x49, 0xc7, 0xc5] + spec_le32(iters)
}

/// `SUB R13, 1`: count down.
pub open spec fn spec_sub_r13_1() -> Seq<u8> {
    seq![0x49, 0x83, 0xed, 0x01]
}

/// `JNE rel32` with the given displacement image.
pub open spec fn spec_jne_rel32(disp: u32) -> Seq<u8> {
    seq![0x0f, 0x85] + spec_le32(disp)
}

/// A counted loop over `body`, emitted at buffer position `pos`: load `R13`
/// with the iteration count, pad with single-byte no-operations so the loop
/// head lands on a 64-byte boundary, then fence, run the body, decrement and
/// branch back over it. The branch displacement spans the fence, the body,
/// the decrement and the branch itself.
pub open spec fn spec_loop_reg(pos: int, iters: u32, body: Seq<u8>) -> Seq<u8> {
    spec_mov_r13_imm32(iters) + spec_nop_pad(spec_align64_pad(pos + 7)) + spec_lfence() + body
        + spec_sub_r13_1() + spec_jne_rel32(spec_neg32(body.len() as int + 13)) + spec_lfence()
}

/// `MOV RCX, imm32`: select a counter.
pub open spec fn spec_mov_rcx_imm32(k: u32) -> Seq<u8> {
    seq![0x48, 0xc7, 0xc1] + spec_le32(k)
}

/// One fenced counter read: select counter `k`, `RDPMC` between fences, and
/// fold `RAX` into an accumulator register with `op`.
pub open spec fn spec_rdpmc_read(k: u32, op: Seq<u8>) -> Seq<u8> {
    spec_mov_rcx_imm32(k) + spec_lfence() + spec_rdpmc() + spec_lfence() + op
}

/// The six baseline reads: counters 5 down to 0, each subtracted from its
/// accumulator (`R14` down to `R9`).
pub open spec fn spec_rdpmc_sub_block() -> Seq<u8> {
    spec_rdpmc_read(5, seq![0x49, 0x29, 0xc6]) + spec_rdpmc_read(4, seq![0x49, 0x29, 0xc5])
        + spec_rdpmc_read(3, seq![0x49, 0x29, 0xc4]) + spec_rdpmc_read(2, seq![0x49, 0x29, 0xc3])
        + spec_rdpmc_read(1, seq![0x49, 0x29, 0xc2]) + spec_rdpmc_read(0, seq![0x49, 0x29, 0xc1])
}

/// The six closing reads: counters 0 up to 5, each added onto its
/// accumulator (`R9` up to `R14`), completing the per-counter differences.
pub open spec fn spec_rdpmc_add_block() -> Seq<u8> {
    spec_rdpmc_read(0, seq![0x49, 0x01, 0xc1]) + spec_rdpmc_read(1, seq![0x49, 0x01, 0xc2])
        + spec_rdpmc_read(2, seq![0x49, 0x01, 0xc3]) + spec_rdpmc_read(3, seq![0x49, 0x01, 0xc4])
        + spec_rdpmc_read(4, seq![0x49, 0x01, 0xc5]) + spec_rdpmc_read(5, seq![0x49, 0x01, 0xc6])
}

/// `MOV [R15 + 8 * k], reg` for the six accumulators: write the result row
/// out through the result pointer.
pub open spec fn spec_result_stores() -> Seq<u8> {
    seq![0x4d, 0x89, 0x4f, 0x00, 0x4d, 0x89, 0x57, 0x08, 0x4d, 0x89, 0x5f, 0x10, 0x4d, 0x89, 0x67,
        0x18, 0x4d, 0x89, 0x6f, 0x20, 0x4d, 0x89, 0x77, 0x28]
}

/// The prologue of the six-counter gadget: save and fence as in
/// [spec_push_abi], but park the result pointer (first argument, `RDI`) in
/// `R15` before zeroing and leave `R15` alone, then take the six baseline
/// readings.
pub open spec fn spec_rdpmc_all_prologue() -> Seq<u8> {
    spec_save_regs() + spec_mfence() + spec_lfence() + seq![0x49, 0x89, 0xff]
        + spec_zero_regs_keep_r15() + spec_mfence() + spec_lfence() + spec_rdpmc_sub_block()
}

/// The epilogue of the six-counter gadget: the six closing readings, the
/// result stores through `R15`, and restore-fence-return.
pub open spec fn spec_rdpmc_all_epilogue() -> Seq<u8> {
    spec_rdpmc_add_block() + spec_result_stores() + seq![0x41, 0x5f, 0x41, 0x5e, 0x41, 0x5d, 0x41,
        0x5c, 0x5e, 0x5f, 0x5b, 0x5d] + spec_mfence() + seq![0xc3] + spec_lfence()
}

/// A fenced RDPRU read whose 64-bit result lands in `RDX`: `RDPRU` between
/// fences, shift the high half up and fold the low half in.
pub open spec fn spec_rdpru_rdx() -> Seq<u8> {
    spec_lfence() + spec_rdpru() + spec_lfence() + seq![0x48, 0xc1, 0xe2, 0x20, 0x48, 0x09, 0xc2]
}

/// The parameter setup of the pointer-chasing gadget: keep 1 in `RCX` for
/// RDPRU, load the two chase pointers into `RDI` and `RSI`, zero the `R14`
/// accumulator, and park the free pointer in `R15`.
pub open spec fn spec_hwong_setup(tgt_ptr1: u64, tgt_ptr2: u64, free_ptr: u64) -> Seq<u8> {
    seq![0x48, 0xc7, 0xc1, 0x01, 0x00, 0x00, 0x00] + seq![0x48, 0xbf] + spec_le64(tgt_ptr1)
        + seq![0x48, 0xbe] + spec_le64(tgt_ptr2) + seq![0x4d, 0x31, 0xf6] + seq![0x49, 0xbf]
        + spec_le64(free_ptr)
}

/// One outer turn of the pointer-chasing loop body: a dependent load through
/// `RDI`, the first fragment `inner` times, a dependent load through `RSI`,
/// the second fragment `inner` times.
pub open spec fn spec_hwong_turn(
    body_a: Seq<u8>,
    body_b: Seq<u8>,
    inner_unroll: nat,
) -> Seq<u8> {
    seq![0x48u8, 0x8bu8, 0x3fu8] + repeat_frag(body_a, inner_unroll) + seq![0x48u8, 0x8bu8, 0x36u8]
        + repeat_frag(body_b, inner_unroll)
}

/// The whole pointer-chasing measurement gadget: prologue, parameter setup,
/// baseline RDPRU reading subtracted from `R14`, the counted loop over the
/// unrolled chase-and-fragment body, closing RDPRU reading added onto `R14`,
/// the difference moved to `RAX`, epilogue.
pub open spec fn spec_hwong_gadget(
    tgt_ptr1: u64,
    tgt_ptr2: u64,
    free_ptr: u64,
    loop_iters: u32,
    outer_unroll: nat,
    inner_unroll: nat,
    body_a: Seq<u8>,
    body_b: Seq<u8>,
) -> Seq<u8> {
    let pre = spec_push_abi() + spec_hwong_setup(tgt_ptr1, tgt_ptr2, free_ptr) + spec_rdpru_rdx()
        + seq![0x49u8, 0x29u8, 0xd6u8];
    let turns = repeat_frag(spec_hwong_turn(body_a, body_b, inner_unroll), outer_unroll);
    pre + spec_loop_reg(pre.len() as int, loop_iters, turns) + spec_rdpru_rdx() + seq![0x49u8,
        0x01u8, 0xd6u8, 0x4cu8, 0x89u8, 0xf0u8] + spec_pop_abi_ret()
}

/// Append the four bytes of `x`, least significant first.
pub fn emit_le32(buf: &mut Vec<u8>, x: u32)
    ensures
        final(buf)@ == old(buf)@ + spec_le32(x),
{
    buf.push((x & 0xff) as u8);
    buf.push(((x >> 8) & 0xff) as u8);
    buf.push(((x >> 16) & 0xff) as u8);
    buf.push(((x >> 24) & 0xff) as u8);
    proof {
        assert(buf@ =~= old(buf)@ + spec_le32(x));
    }
}

/// Append the eight bytes of `x`, least significant first.
pub fn emit_le64(buf: &mut Vec<u8>, x: u64)
    ensures
        final(buf)@ == old(buf)@ + spec_le64(x),
{
    buf.push((x & 0xff) as u8);
    buf.push(((x >> 8) & 0xff) as u8);
    buf.push(((x >> 16) & 0xff) as u8);
    buf.push(((x >> 24) & 0xff) as u8);
    buf.push(((x >> 32) & 0xff) as u8);
    buf.push(((x >> 40) & 0xff) as u8);
    buf.push(((x >> 48) & 0xff) as u8);
    buf.push(((x >> 56) & 0xff) as u8);
    proof {
        assert(buf@ =~= old(buf)@ + spec_le64(x));
    }
}

/// Append `k` copies of `frag`.
pub fn emit_repeat(buf: &mut Vec<u8>, frag: &Vec<u8>, k: usize)
    ensures
        final(buf)@ == old(buf)@ + repeat_frag(frag@, k as nat),
{
    let mut t: usize = 0;
    while t < k
        invariant
            t <= k,
            buf@ == old(buf)@ + repeat_frag(frag@, t as nat),
        decreases k - t,
    {
        append_bytes(buf, frag);
        proof {
            assert(repeat_frag(frag@, (t + 1) as nat) == repeat_frag(frag@, t as nat) + frag@);
            assert(buf@ =~= old(buf)@ + repeat_frag(frag@, (t + 1) as nat));
        }
        t = t + 1;
    }
}

/// Append the common prologue ([spec_push_abi]).
pub fn emit_push_abi(buf: &mut Vec<u8>)
    ensures
        final(buf)@ == old(buf)@ + spec_push_abi(),
{
    let mut v: Vec<u8> = Vec::new();
    v.push(0x55);
    v.push(0x53);
    v.push(0x57);
    v.push(0x56);
    v.push(0x41);
    v.push(0x54);
    v.push(0x41);
    v.push(0x55);
    v.push(0x41);
    v.push(0x56);
    v.push(0x41);
    v.push(0x57);
    proof {
        assert(v@ =~= spec_save_regs());
    }
    append_bytes(buf, &v);
    let m = mfence_bytes();
    append_bytes(buf, &m);
    let l = lfence_bytes();
    append_bytes(buf, &l);
    let z = zero_regs_keep_r15_bytes();
    append_bytes(buf, &z);
    buf.push(0x4d);
    buf.push(0x31);
    buf.push(0xff);
    append_bytes(buf, &m);
    append_bytes(buf, &l);
    proof {
        assert(buf@ =~= old(buf)@ + spec_push_abi());
    }
}

/// Append the common epilogue ([spec_pop_abi_ret]).
pub fn emit_pop_abi_ret(buf: &mut Vec<u8>)
    ensures
        final(buf)@ == old(buf)@ + spec_pop_abi_ret(),
{
    buf.push(0x41);
    buf.push(0x5f);
    buf.push(0x41);
    buf.push(0x5e);
    buf.push(0x41);
    buf.push(0x5d);
    buf.push(0x41);
    buf.push(0x5c);
    buf.push(0x5e);
    buf.push(0x5f);
    buf.push(0x5b);
    buf.push(0x5d);
    buf.push(0xc3);
    buf.push(0x0f);
    buf.push(0xae);
    buf.push(0xe8);
    proof {
        assert(buf@ =~= old(buf)@ + spec_pop_abi_ret());
    }
}

/// Return the register-zeroing block that leaves `R15` alone.
fn zero_regs_keep_r15_bytes() -> (r: Vec<u8>)
    ensures
        r@ == spec_zero_regs_keep_r15(),
{
    let mut v: Vec<u8> = Vec::new();
    v.push(0x48);
    v.push(0x31);
    v.push(0xc0);
    v.push(0x48);
    v.push(0x31);
    v.push(0xdb);
    v.push(0x48);
    v.push(0x31);
    v.push(0xc9);
    v.push(0x48);
    v.push(0x31);
    v.push(0xd2);
    v.push(0x48);
    v.push(0x31);
    v.push(0xf6);
    v.push(0x48);
    v.push(0x31);
    v.push(0xff);
    v.push(0x48);
    v.push(0x31);
    v.push(0xed);
    v.push(0x4d);
    v.push(0x31);
    v.push(0xc0);
    v.push(0x4d);
    v.push(0x31);
    v.push(0xc9);
    v.push(0x4d);
    v.push(0x31);
    v.push(0xd2);
    v.push(0x4d);
    v.push(0x31);
    v.push(0xdb);
    v.push(0x4d);
    v.push(0x31);
    v.push(0xe4);
    v.push(0x4d);
    v.push(0x31);
    v.push(0xed);
    v.push(0x4d);
    v.push(0x31);
    v.push(0xf6);
    proof {
        assert(v@ =~= spec_zero_regs_keep_r15());
    }
    v
}

/// Append one fenced counter read ([spec_rdpmc_read]); `op` folds `RAX`
/// into an accumulator.
fn emit_rdpmc_read(buf: &mut Vec<u8>, k: u32, op0: u8, op1: u8, op2: u8)
    ensures
        final(buf)@ == old(buf)@ + spec_rdpmc_read(k, seq![op0, op1, op2]),
{
    buf.push(0x48);
    buf.push(0xc7);
    buf.push(0xc1);
    emit_le32(buf, k);
    let l = lfence_bytes();
    append_bytes(buf, &l);
    let p = rdpmc_bytes();
    append_bytes(buf, &p);
    append_bytes(buf, &l);
    buf.push(op0);
    buf.push(op1);
    buf.push(op2);
    proof {
        assert(buf@ =~= old(buf)@ + spec_rdpmc_read(k, seq![op0, op1, op2]));
    }
}

/// Append a fenced RDPRU reading whose 64-bit value lands in `RDX`
/// ([spec_rdpru_rdx]).
pub fn emit_rdpru_rdx(buf: &mut Vec<u8>)
    ensures
        final(buf)@ == old(buf)@ + spec_rdpru_rdx(),
{
    let l = lfence_bytes();
    append_bytes(buf, &l);
    let p = rdpru_bytes();
    append_bytes(buf, &p);
    append_bytes(buf, &l);
    buf.push(0x48);
    buf.push(0xc1);
    buf.push(0xe2);
    buf.push(0x20);
    buf.push(0x48);
    buf.push(0x09);
    buf.push(0xc2);
    proof {
        assert(buf@ =~= old(buf)@ + spec_rdpru_rdx());
    }
}

/// Append a counted loop over `body` using `R13` and a backward `JNE`
/// ([spec_loop_reg]): the loop head is aligned to a 64-byte boundary, and
/// the branch displacement is computed from the body length.
pub fn emit_loop_reg(buf: &mut Vec<u8>, iters: u32, body: &Vec<u8>)
    requires
        body@.len() + 13 <= 0x7fff_ffff,
        old(buf)@.len() + 71 <= usize::MAX,
    ensures
        final(buf)@ == old(buf)@ + spec_loop_reg(old(buf)@.len() as int, iters, body@),
{
    buf.push(0x49);
    buf.push(0xc7);
    buf.push(0xc5);
    emit_le32(buf, iters);
    let pad: usize = (64 - (buf.len() % 64)) % 64;
    proof {
        assert(pad == spec_align64_pad(old(buf)@.len() as int + 7));
    }
    let ghost mid = buf@;
    let mut t: usize = 0;
    while t < pad
        invariant
            t <= pad,
            buf@ == mid + spec_nop_pad(t as int),
        decreases pad - t,
    {
        buf.push(0x90);
        proof {
            assert(buf@ =~= mid + spec_nop_pad(t as int + 1));
        }
        t = t + 1;
    }
    let l = lfence_bytes();
    append_bytes(buf, &l);
    append_bytes(buf, body);
    buf.push(0x49);
    buf.push(0x83);
    buf.push(0xed);
    buf.push(0x01);
    buf.push(0x0f);
    buf.push(0x85);
    let span: u64 = body.len() as u64 + 13;
    let disp: u32 = (0x1_0000_0000u64 - span) as u32;
    proof {
        assert(disp == spec_neg32(body@.len() as int + 13));
    }
    emit_le32(buf, disp);
    append_bytes(buf, &l);
    proof {
        assert(buf@ =~= old(buf)@ + spec_loop_reg(old(buf)@.len() as int, iters, body@));
    }
}

/// Append the prologue of the six-counter gadget
/// ([spec_rdpmc_all_prologue]): save and fence, park the result pointer in
/// `R15`, zero the other registers, fence, and take the six baseline
/// counter readings.
#[verifier::rlimit(100)]
pub fn emit_rdpmc_all_prologue(buf: &mut Vec<u8>)
    ensures
        final(buf)@ == old(buf)@ + spec_rdpmc_all_prologue(),
{
    let mut v: Vec<u8> = Vec::new();
    v.push(0x55);
    v.push(0x53);
    v.push(0x57);
    v.push(0x56);
    v.push(0x41);
    v.push(0x54);
    v.push(0x41);
    v.push(0x55);
    v.push(0x41);
    v.push(0x56);
    v.push(0x41);
    v.push(0x57);
    proof {
        assert(v@ =~= spec_save_regs());
    }
    append_bytes(buf, &v);
    let m = mfence_bytes();
    append_bytes(buf, &m);
    let l = lfence_bytes();
    append_bytes(buf, &l);
    buf.push(0x49);
    buf.push(0x89);
    buf.push(0xff);
    let z = zero_regs_keep_r15_bytes();
    append_bytes(buf, &z);
    append_bytes(buf, &m);
    append_bytes(buf, &l);
    emit_rdpmc_read(buf, 5, 0x49, 0x29, 0xc6);
    emit_rdpmc_read(buf, 4, 0x49, 0x29, 0xc5);
    emit_rdpmc_read(buf, 3, 0x49, 0x29, 0xc4);
    emit_rdpmc_read(buf, 2, 0x49, 0x29, 0xc3);
    emit_rdpmc_read(buf, 1, 0x49, 0x29, 0xc2);
    emit_rdpmc_read(buf, 0, 0x49, 0x29, 0xc1);
    proof {
        assert(buf@ =~= old(buf)@ + spec_rdpmc_all_prologue());
    }
}

/// Append the epilogue of the six-counter gadget
/// ([spec_rdpmc_all_epilogue]): the six closing counter readings, the
/// result stores through `R15`, and restore-fence-return.
#[verifier::rlimit(100)]
pub fn emit_rdpmc_all_epilogue(buf: &mut Vec<u8>)
    ensures
        final(buf)@ == old(buf)@ + spec_rdpmc_all_epilogue(),
{
    emit_rdpmc_read(buf, 0, 0x49, 0x01, 0xc1);
    emit_rdpmc_read(buf, 1, 0x49, 0x01, 0xc2);
    emit_rdpmc_read(buf, 2, 0x49, 0x01, 0xc3);
    emit_rdpmc_read(buf, 3, 0x49, 0x01, 0xc4);
    emit_rdpmc_read(buf, 4, 0x49, 0x01, 0xc5);
    emit_rdpmc_read(buf, 5, 0x49, 0x01, 0xc6);
    let mut st: Vec<u8> = Vec::new();
    st.push(0x4d);
    st.push(0x89);
    st.push(0x4f);
    st.push(0x00);
    st.push(0x4d);
    st.push(0x89);
    st.push(0x57);
    st.push(0x08);
    st.push(0x4d);
    st.push(0x89);
    st.push(0x5f);
    st.push(0x10);
    st.push(0x4d);
    st.push(0x89);
    st.push(0x67);
    st.push(0x18);
    st.push(0x4d);
    st.push(0x89);
    st.push(0x6f);
    st.push(0x20);
    st.push(0x4d);
    st.push(0x89);
    st.push(0x77);
    st.push(0x28);
    proof {
        assert(st@ =~= spec_result_stores());
    }
    append_bytes(buf, &st);
    let mut po: Vec<u8> = Vec::new();
    po.push(0x41);
    po.push(0x5f);
    po.push(0x41);
    po.push(0x5e);
    po.push(0x41);
    po.push(0x5d);
    po.push(0x41);
    po.push(0x5c);
    po.push(0x5e);
    po.push(0x5f);
    po.push(0x5b);
    po.push(0x5d);
    append_bytes(buf, &po);
    let m = mfence_bytes();
    append_bytes(buf, &m);
    buf.push(0xc3);
    let l = lfence_bytes();
    append_bytes(buf, &l);
    proof {
        assert(buf@ =~= old(buf)@ + spec_rdpmc_all_epilogue());
    }
}

/// Emit the six-counter measurement gadget around `body`: a prologue that
/// parks the result pointer and takes six baseline counter readings, the
/// caller's measured fragment, and an epilogue that takes six closing
/// readings and stores the six differences through the result pointer.
pub fn emit_rdpmc_test_all(body: &Vec<u8>) -> (r: Vec<u8>)
    ensures
        r@ == spec_rdpmc_all_prologue() + body@ + spec_rdpmc_all_epilogue(),
{
    let mut buf: Vec<u8> = Vec::new();
    emit_rdpmc_all_prologue(&mut buf);
    append_bytes(&mut buf, body);
    emit_rdpmc_all_epilogue(&mut buf);
    proof {
        assert(buf@ =~= spec_rdpmc_all_prologue() + body@ + spec_rdpmc_all_epilogue());
    }
    buf
}

/// Emit the six-counter gadget whose measured region is a counted loop over
/// `unroll` replicas of `fragment`: the loop is emitted at its true offset
/// inside the gadget, so the 64-byte alignment of its loop head holds in
/// the finished code.
pub fn emit_rdpmc_loop_test(iters: u32, fragment: &Vec<u8>, unroll: usize) -> (r: Vec<u8>)
    requires
        unroll * fragment@.len() + 13 <= 0x7fff_ffff,
    ensures
        r@ == spec_rdpmc_all_prologue() + spec_loop_reg(
            spec_rdpmc_all_prologue().len() as int,
            iters,
            repeat_frag(fragment@, unroll as nat),
        ) + spec_rdpmc_all_epilogue(),
{
    let mut body: Vec<u8> = Vec::new();
    emit_repeat(&mut body, fragment, unroll);
    proof {
        lemma_repeat_frag_len(fragment@, unroll as nat);
        assert((unroll as nat) * fragment@.len() == unroll * fragment@.len()) by (nonlinear_arith);
        assert(spec_rdpmc_all_prologue().len() == 177);
    }
    let mut buf: Vec<u8> = Vec::new();
    emit_rdpmc_all_prologue(&mut buf);
    emit_loop_reg(&mut buf, iters, &body);
    emit_rdpmc_all_epilogue(&mut buf);
    proof {
        assert(buf@ =~= spec_rdpmc_all_prologue() + spec_loop_reg(
            spec_rdpmc_all_prologue().len() as int,
            iters,
            repeat_frag(fragment@, unroll as nat),
        ) + spec_rdpmc_all_epilogue());
    }
    buf
}

/// Emit a single-counter measurement gadget around `body`: the common
/// prologue, a fenced read of counter `ctr` subtracted from `R15`, the
/// measured fragment, a second fenced read added onto `R15`, the difference
/// moved to `RAX`, a fence, and the common epilogue. The event count lands
/// in `RAX`.
pub fn emit_rdpmc_test_single(ctr: u32, body: &Vec<u8>) -> (r: Vec<u8>)
    requires
        ctr < 6,
    ensures
        r@ == spec_push_abi() + seq![0xb9u8] + spec_le32(ctr) + spec_lfence() + spec_rdpmc()
            + spec_lfence() + seq![0x49u8, 0x29u8, 0xc7u8] + body@ + seq![0xb9u8] + spec_le32(ctr)
            + spec_lfence() + spec_rdpmc() + spec_lfence() + seq![0x49u8, 0x01u8, 0xc7u8, 0x4cu8,
            0x89u8, 0xf8u8] + spec_mfence() + spec_pop_abi_ret(),
{
    let mut buf: Vec<u8> = Vec::new();
    emit_push_abi(&mut buf);
    let l = lfence_bytes();
    let p = rdpmc_bytes();
    buf.push(0xb9);
    emit_le32(&mut buf, ctr);
    append_bytes(&mut buf, &l);
    append_bytes(&mut buf, &p);
    append_bytes(&mut buf, &l);
    buf.push(0x49);
    buf.push(0x29);
    buf.push(0xc7);
    append_bytes(&mut buf, body);
    buf.push(0xb9);
    emit_le32(&mut buf, ctr);
    append_bytes(&mut buf, &l);
    append_bytes(&mut buf, &p);
    append_bytes(&mut buf, &l);
    buf.push(0x49);
    buf.push(0x01);
    buf.push(0xc7);
    buf.push(0x4c);
    buf.push(0x89);
    buf.push(0xf8);
    let m = mfence_bytes();
    append_bytes(&mut buf, &m);
    emit_pop_abi_ret(&mut buf);
    proof {
        assert(buf@ =~= spec_push_abi() + seq![0xb9u8] + spec_le32(ctr) + spec_lfence()
            + spec_rdpmc() + spec_lfence() + seq![0x49u8, 0x29u8, 0xc7u8] + body@ + seq![0xb9u8]
            + spec_le32(ctr) + spec_lfence() + spec_rdpmc() + spec_lfence() + seq![0x49u8, 0x01u8,
            0xc7u8, 0x4cu8, 0x89u8, 0xf8u8] + spec_mfence() + spec_pop_abi_ret());
    }
    buf
}

/// Emit the pointer-chasing gadget for measuring speculative structure
/// capacities: two dependent-load chains through a shuffled maze interleaved
/// with the caller's fragments, a counted loop around them, and an APERF
/// cycle difference returned in `RAX` ([spec_hwong_gadget]).
///
/// `tgt_ptr1` and `tgt_ptr2` must be addresses of cells in a cyclic,
/// randomly arranged chain of pointers, so that the dependent loads reliably
/// miss the cache.
#[verifier::rlimit(100)]
pub fn emit_hwong_gadget_test(
    tgt_ptr1: u64,
    tgt_ptr2: u64,
    free_ptr: u64,
    loop_iters: u32,
    outer_unroll: usize,
    inner_unroll: usize,
    body_a: &Vec<u8>,
    body_b: &Vec<u8>,
) -> (r: Vec<u8>)
    requires
        (6 + inner_unroll * (body_a@.len() + body_b@.len())) * outer_unroll + 13 <= 0x7fff_ffff,
    ensures
        r@ == spec_hwong_gadget(
            tgt_ptr1,
            tgt_ptr2,
            free_ptr,
            loop_iters,
            outer_unroll as nat,
            inner_unroll as nat,
            body_a@,
            body_b@,
        ),
{
    // One turn of the loop: chase RDI, fragment a, chase RSI, fragment b.
    let mut turn: Vec<u8> = Vec::new();
    turn.push(0x48);
    turn.push(0x8b);
    turn.push(0x3f);
    emit_repeat(&mut turn, body_a, inner_unroll);
    turn.push(0x48);
    turn.push(0x8b);
    turn.push(0x36);
    emit_repeat(&mut turn, body_b, inner_unroll);
    proof {
        assert(turn@ =~= spec_hwong_turn(body_a@, body_b@, inner_unroll as nat));
    }
    let mut turns: Vec<u8> = Vec::new();
    emit_repeat(&mut turns, &turn, outer_unroll);
    proof {
        lemma_repeat_frag_len(body_a@, inner_unroll as nat);
        lemma_repeat_frag_len(body_b@, inner_unroll as nat);
        lemma_repeat_frag_len(turn@, outer_unroll as nat);
        assert(turn@.len() == 6 + inner_unroll * (body_a@.len() + body_b@.len()))
            by (nonlinear_arith)
            requires
                turn@.len() == 3 + (inner_unroll as nat) * body_a@.len() + 3 + (inner_unroll
                    as nat) * body_b@.len(),
        ;
        assert(turns@.len() <= 0x7fff_ffff - 13) by (nonlinear_arith)
            requires
                turns@.len() == (outer_unroll as nat) * turn@.len(),
                turn@.len() * outer_unroll + 13 <= 0x7fff_ffff,
        ;
    }
    let mut buf: Vec<u8> = Vec::new();
    emit_push_abi(&mut buf);
    buf.push(0x48);
    buf.push(0xc7);
    buf.push(0xc1);
    buf.push(0x01);
    buf.push(0x00);
    buf.push(0x00);
    buf.push(0x00);
    buf.push(0x48);
    buf.push(0xbf);
    emit_le64(&mut buf, tgt_ptr1);
    buf.push(0x48);
    buf.push(0xbe);
    emit_le64(&mut buf, tgt_ptr2);
    buf.push(0x4d);
    buf.push(0x31);
    buf.push(0xf6);
    buf.push(0x49);
    buf.push(0xbf);
    emit_le64(&mut buf, free_ptr);
    emit_rdpru_rdx(&mut buf);
    buf.push(0x49);
    buf.push(0x29);
    buf.push(0xd6);
    proof {
        assert(buf@ =~= spec_push_abi() + spec_hwong_setup(tgt_ptr1, tgt_ptr2, free_ptr)
            + spec_rdpru_rdx() + seq![0x49u8, 0x29u8, 0xd6u8]);
    }
    emit_loop_reg(&mut buf, loop_iters, &turns);
    emit_rdpru_rdx(&mut buf);
    buf.push(0x49);
    buf.push(0x01);
    buf.push(0xd6);
    buf.push(0x4c);
    buf.push(0x89);
    buf.push(0xf0);
    emit_pop_abi_ret(&mut buf);
    proof {
        assert(buf@ =~= spec_hwong_gadget(
            tgt_ptr1,
            tgt_ptr2,
            free_ptr,
            loop_iters,
            outer_unroll as nat,
            inner_unroll as nat,
            body_a@,
            body_b@,
        ));
    }
    buf
}

} // verus!
