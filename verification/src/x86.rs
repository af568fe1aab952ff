//! Byte encodings for a handful of x86-64 instructions that measurement
//! gadgets are built from.
//!
//! Every encoding has a spec-level byte sequence and an executable function
//! producing exactly those bytes, so contracts over emitted code can name
//! each instruction.

use vstd::prelude::*;

verus! {

/// `MFENCE`: full memory barrier.
pub open spec fn spec_mfence() -> Seq<u8> {
    seq![0x0f, 0xae, 0xf0]
}

/// `LFENCE`: load barrier, serializing instruction dispatch.
pub open spec fn spec_lfence() -> Seq<u8> {
    seq![0x0f, 0xae, 0xe8]
}

/// `RDPRU`: read a processor register (MPERF/APERF) selected by `ECX`.
pub open spec fn spec_rdpru() -> Seq<u8> {
    seq![0x0f, 0x01, 0xfd]
}

/// `RDPMC`: read the performance counter selected by `ECX`.
pub open spec fn spec_rdpmc() -> Seq<u8> {
    seq![0x0f, 0x33]
}

/// `MCOMMIT`: commit stores to memory.
pub open spec fn spec_mcommit() -> Seq<u8> {
    seq![0xf3, 0x0f, 0x01, 0xfa]
}

/// `CLWB byte ptr [r15]`: write back the cache line under `R15`.
pub open spec fn spec_clwb_r15() -> Seq<u8> {
    seq![0x66, 0x41, 0x0f, 0xae, 0x37]
}

// Several encodings also come in a form padded with redundant prefixes to
// exactly eight bytes, so measured fragments can be built from instructions
// of uniform length.

/// `MFENCE` padded to eight bytes with address-size prefixes.
pub open spec fn spec_mfence8() -> Seq<u8> {
    seq![0x67, 0x67, 0x67, 0x67, 0x67, 0x0f, 0xae, 0xf0]
}

/// `LFENCE` padded to eight bytes with address-size prefixes.
pub open spec fn spec_lfence8() -> Seq<u8> {
    seq![0x67, 0x67, 0x67, 0x67, 0x67, 0x0f, 0xae, 0xe8]
}

/// `RDPRU` padded to eight bytes with operand-size prefixes.
pub open spec fn spec_rdpru8() -> Seq<u8> {
    seq![0x66, 0x66, 0x66, 0x66, 0x66, 0x0f, 0x01, 0xfd]
}

/// `RDPMC` padded to eight bytes with operand-size prefixes.
pub open spec fn spec_rdpmc8() -> Seq<u8> {
    seq![0x66, 0x66, 0x66, 0x66, 0x66, 0x66, 0x0f, 0x33]
}

/// `SUB R8, RAX`: fold a reading into the `R8` accumulator.
pub open spec fn spec_sub_r8_rax() -> Seq<u8> {
    seq![0x49, 0x29, 0xc0]
}

/// `SUB R8, RAX` padded to eight bytes.
pub open spec fn spec_sub_r8_rax8() -> Seq<u8> {
    seq![0x66, 0x66, 0x66, 0x66, 0x66, 0x49, 0x29, 0xc0]
}

/// `MOV RDI, RAX`.
pub open spec fn spec_mov_rdi_rax() -> Seq<u8> {
    seq![0x48, 0x89, 0xc7]
}

/// `MOV RDI, RAX` padded to eight bytes.
pub open spec fn spec_mov_rdi_rax8() -> Seq<u8> {
    seq![0x66, 0x66, 0x66, 0x66, 0x66, 0x48, 0x89, 0xc7]
}

/// `MOV RCX, 1`: select APERF for RDPRU.
pub open spec fn spec_mov_rcx_1() -> Seq<u8> {
    seq![0x48, 0xc7, 0xc1, 0x01, 0x00, 0x00, 0x00]
}

/// `MOV RCX, 1` padded to eight bytes.
pub open spec fn spec_mov_rcx_1_8() -> Seq<u8> {
    seq![0x66, 0x48, 0xc7, 0xc1, 0x01, 0x00, 0x00, 0x00]
}

/// `XOR R8, R8`: clear the `R8` accumulator.
pub open spec fn spec_xor_r8_r8() -> Seq<u8> {
    seq![0x4d, 0x31, 0xc0]
}

/// `XOR R8, R8` padded to eight bytes.
pub open spec fn spec_xor_r8_r8_8() -> Seq<u8> {
    seq![0x66, 0x66, 0x66, 0x66, 0x66, 0x4d, 0x31, 0xc0]
}

/// A canonical no-operation encoding of each length from 1 to 15 bytes,
/// built from the recommended multi-byte `NOP` forms padded with operand- or
/// address-size prefixes.
pub open spec fn spec_nop(len: int) -> Seq<u8>
    decreases len,
{
    if len <= 1 {
        seq![0x90]
    } else if len == 2 {
        seq![0x66, 0x90]
    } else if len == 3 {
        seq![0x0f, 0x1f, 0x00]
    } else if len == 4 {
        seq![0x0f, 0x1f, 0x40, 0x00]
    } else if len == 5 {
        seq![0x0f, 0x1f, 0x44, 0x00, 0x00]
    } else if len == 6 {
        seq![0x66, 0x0f, 0x1f, 0x44, 0x00, 0x00]
    } else if len == 7 {
        seq![0x0f, 0x1f, 0x80, 0x00, 0x00, 0x00, 0x00]
    } else if len == 8 {
        seq![0x0f, 0x1f, 0x84, 0x00, 0x00, 0x00, 0x00, 0x00]
    } else {
        seq![0x66].add(spec_nop(len - 1))
    }
}

/// Every canonical no-operation encoding has exactly its nominal length.
pub proof fn lemma_nop_len(len: int)
    requires
        1 <= len <= 15,
    ensures
        spec_nop(len).len() == len,
    decreases len,
{
    if len > 8 {
        lemma_nop_len(len - 1);
    }
}

/// Append the bytes of `src` to `buf`.
pub fn append_bytes(buf: &mut Vec<u8>, src: &Vec<u8>)
    ensures
        final(buf)@ == old(buf)@ + src@,
{
    let mut i: usize = 0;
    while i < src.len()
        invariant
            i <= src.len(),
            buf@ == old(buf)@ + src@.take(i as int),
        decreases src.len() - i,
    {
        buf.push(src[i]);
        proof {
            assert(buf@ =~= old(buf)@ + src@.take(i + 1));
        }
        i = i + 1;
    }
    proof {
        assert(buf@ =~= old(buf)@ + src@);
    }
}

/// Return the `MFENCE` encoding.
pub fn mfence_bytes() -> (r: Vec<u8>)
    ensures
        r@ == spec_mfence(),
{
    let mut v: Vec<u8> = Vec::new();
    v.push(0x0f);
    v.push(0xae);
    v.push(0xf0);
    proof {
        assert(v@ =~= spec_mfence());
    }
    v
}

/// Return the `LFENCE` encoding.
pub fn lfence_bytes() -> (r: Vec<u8>)
    ensures
        r@ == spec_lfence(),
{
    let mut v: Vec<u8> = Vec::new();
    v.push(0x0f);
    v.push(0xae);
    v.push(0xe8);
    proof {
        assert(v@ =~= spec_lfence());
    }
    v
}

/// Return the `RDPRU` encoding.
pub fn rdpru_bytes() -> (r: Vec<u8>)
    ensures
        r@ == spec_rdpru(),
{
    let mut v: Vec<u8> = Vec::new();
    v.push(0x0f);
    v.push(0x01);
    v.push(0xfd);
    proof {
        assert(v@ =~= spec_rdpru());
    }
    v
}

/// Return the `RDPMC` encoding.
pub fn rdpmc_bytes() -> (r: Vec<u8>)
    ensures
        r@ == spec_rdpmc(),
{
    let mut v: Vec<u8> = Vec::new();
    v.push(0x0f);
    v.push(0x33);
    proof {
        assert(v@ =~= spec_rdpmc());
    }
    v
}

/// Return the `MCOMMIT` encoding.
pub fn mcommit_bytes() -> (r: Vec<u8>)
    ensures
        r@ == spec_mcommit(),
{
    let mut v: Vec<u8> = Vec::new();
    v.push(0xf3);
    v.push(0x0f);
    v.push(0x01);
    v.push(0xfa);
    proof {
        assert(v@ =~= spec_mcommit());
    }
    v
}

/// Return the `CLWB byte ptr [r15]` encoding.
pub fn clwb_r15_bytes() -> (r: Vec<u8>)
    ensures
        r@ == spec_clwb_r15(),
{
    let mut v: Vec<u8> = Vec::new();
    v.push(0x66);
    v.push(0x41);
    v.push(0x0f);
    v.push(0xae);
    v.push(0x37);
    proof {
        assert(v@ =~= spec_clwb_r15());
    }
    v
}

/// Return the `MFENCE` encoding padded to eight bytes.
pub fn mfence8_bytes() -> (r: Vec<u8>)
    ensures
        r@ == spec_mfence8(),
{
    let mut v: Vec<u8> = Vec::new();
    let mut p: usize = 0;
    while p < 5
        invariant
            p <= 5,
            v@ =~= Seq::new(p as nat, |q: int| 0x67u8),
        decreases 5 - p,
    {
        v.push(0x67);
        proof {
            assert(v@ =~= Seq::new((p + 1) as nat, |q: int| 0x67u8));
        }
        p = p + 1;
    }
    v.push(0x0f);
    v.push(0xae);
    v.push(0xf0);
    proof {
        assert(v@ =~= spec_mfence8());
    }
    v
}

/// Return the `LFENCE` encoding padded to eight bytes.
pub fn lfence8_bytes() -> (r: Vec<u8>)
    ensures
        r@ == spec_lfence8(),
{
    let mut v: Vec<u8> = Vec::new();
    let mut p: usize = 0;
    while p < 5
        invariant
            p <= 5,
            v@ =~= Seq::new(p as nat, |q: int| 0x67u8),
        decreases 5 - p,
    {
        v.push(0x67);
        proof {
            assert(v@ =~= Seq::new((p + 1) as nat, |q: int| 0x67u8));
        }
        p = p + 1;
    }
    v.push(0x0f);
    v.push(0xae);
    v.push(0xe8);
    proof {
        assert(v@ =~= spec_lfence8());
    }
    v
}

/// Return the `RDPRU` encoding padded to eight bytes.
pub fn rdpru8_bytes() -> (r: Vec<u8>)
    ensures
        r@ == spec_rdpru8(),
{
    let mut v: Vec<u8> = Vec::new();
    v.push(0x66);
    v.push(0x66);
    v.push(0x66);
    v.push(0x66);
    v.push(0x66);
    v.push(0x0f);
    v.push(0x01);
    v.push(0xfd);
    proof {
        assert(v@ =~= spec_rdpru8());
    }
    v
}

/// Return the `RDPMC` encoding padded to eight bytes.
pub fn rdpmc8_bytes() -> (r: Vec<u8>)
    ensures
        r@ == spec_rdpmc8(),
{
    let mut v: Vec<u8> = Vec::new();
    v.push(0x66);
    v.push(0x66);
    v.push(0x66);
    v.push(0x66);
    v.push(0x66);
    v.push(0x66);
    v.push(0x0f);
    v.push(0x33);
    proof {
        assert(v@ =~= spec_rdpmc8());
    }
    v
}

/// Return the `SUB R8, RAX` encoding.
pub fn sub_r8_rax_bytes() -> (r: Vec<u8>)
    ensures
        r@ == spec_sub_r8_rax(),
{
    let mut v: Vec<u8> = Vec::new();
    v.push(0x49);
    v.push(0x29);
    v.push(0xc0);
    proof {
        assert(v@ =~= spec_sub_r8_rax());
    }
    v
}

/// Return the `SUB R8, RAX` encoding padded to eight bytes.
pub fn sub_r8_rax8_bytes() -> (r: Vec<u8>)
    ensures
        r@ == spec_sub_r8_rax8(),
{
    let mut v: Vec<u8> = Vec::new();
    v.push(0x66);
    v.push(0x66);
    v.push(0x66);
    v.push(0x66);
    v.push(0x66);
    v.push(0x49);
    v.push(0x29);
    v.push(0xc0);
    proof {
        assert(v@ =~= spec_sub_r8_rax8());
    }
    v
}

/// Return the `MOV RDI, RAX` encoding.
pub fn mov_rdi_rax_bytes() -> (r: Vec<u8>)
    ensures
        r@ == spec_mov_rdi_rax(),
{
    let mut v: Vec<u8> = Vec::new();
    v.push(0x48);
    v.push(0x89);
    v.push(0xc7);
    proof {
        assert(v@ =~= spec_mov_rdi_rax());
    }
    v
}

/// Return the `MOV RDI, RAX` encoding padded to eight bytes.
pub fn mov_rdi_rax8_bytes() -> (r: Vec<u8>)
    ensures
        r@ == spec_mov_rdi_rax8(),
{
    let mut v: Vec<u8> = Vec::new();
    v.push(0x66);
    v.push(0x66);
    v.push(0x66);
    v.push(0x66);
    v.push(0x66);
    v.push(0x48);
    v.push(0x89);
    v.push(0xc7);
    proof {
        assert(v@ =~= spec_mov_rdi_rax8());
    }
    v
}

/// Return the `MOV RCX, 1` encoding.
pub fn mov_rcx_1_bytes() -> (r: Vec<u8>)
    ensures
        r@ == spec_mov_rcx_1(),
{
    let mut v: Vec<u8> = Vec::new();
    v.push(0x48);
    v.push(0xc7);
    v.push(0xc1);
    v.push(0x01);
    v.push(0x00);
    v.push(0x00);
    v.push(0x00);
    proof {
        assert(v@ =~= spec_mov_rcx_1());
    }
    v
}

/// Return the `MOV RCX, 1` encoding padded to eight bytes.
pub fn mov_rcx_1_8_bytes() -> (r: Vec<u8>)
    ensures
        r@ == spec_mov_rcx_1_8(),
{
    let mut v: Vec<u8> = Vec::new();
    v.push(0x66);
    v.push(0x48);
    v.push(0xc7);
    v.push(0xc1);
    v.push(0x01);
    v.push(0x00);
    v.push(0x00);
    v.push(0x00);
    proof {
        assert(v@ =~= spec_mov_rcx_1_8());
    }
    v
}

/// Return the `XOR R8, R8` encoding.
pub fn xor_r8_r8_bytes() -> (r: Vec<u8>)
    ensures
        r@ == spec_xor_r8_r8(),
{
    let mut v: Vec<u8> = Vec::new();
    v.push(0x4d);
    v.push(0x31);
    v.push(0xc0);
    proof {
        assert(v@ =~= spec_xor_r8_r8());
    }
    v
}

/// Return the `XOR R8, R8` encoding padded to eight bytes.
pub fn xor_r8_r8_8_bytes() -> (r: Vec<u8>)
    ensures
        r@ == spec_xor_r8_r8_8(),
{
    let mut v: Vec<u8> = Vec::new();
    v.push(0x66);
    v.push(0x66);
    v.push(0x66);
    v.push(0x66);
    v.push(0x66);
    v.push(0x4d);
    v.push(0x31);
    v.push(0xc0);
    proof {
        assert(v@ =~= spec_xor_r8_r8_8());
    }
    v
}

/// Return the canonical no-operation encoding of the given length (1 to 15
/// bytes).
#[verifier::rlimit(30)]
pub fn nop_bytes(len: usize) -> (r: Vec<u8>)
    requires
        1 <= len <= 15,
    ensures
        r@ == spec_nop(len as int),
        r.len() == len,
{
    proof {
        lemma_nop_len(len as int);
    }
    let mut v: Vec<u8> = Vec::new();
    let mut prefixes: usize = 0;
    if len > 8 {
        prefixes = len - 8;
    }
    let mut p: usize = 0;
    while p < prefixes
        invariant
            prefixes <= 7,
            p <= prefixes,
            v@ =~= Seq::new(p as nat, |q: int| 0x66u8),
        decreases prefixes - p,
    {
        v.push(0x66);
        proof {
            assert(v@ =~= Seq::new((p + 1) as nat, |q: int| 0x66u8));
        }
        p = p + 1;
    }
    let core: usize = if len > 8 {
        8
    } else {
        len
    };
    if core == 1 {
        v.push(0x90);
    } else if core == 2 {
        v.push(0x66);
        v.push(0x90);
    } else if core == 3 {
        v.push(0x0f);
        v.push(0x1f);
        v.push(0x00);
    } else if core == 4 {
        v.push(0x0f);
        v.push(0x1f);
        v.push(0x40);
        v.push(0x00);
    } else if core == 5 {
        v.push(0x0f);
        v.push(0x1f);
        v.push(0x44);
        v.push(0x00);
        v.push(0x00);
    } else if core == 6 {
        v.push(0x66);
        v.push(0x0f);
        v.push(0x1f);
        v.push(0x44);
        v.push(0x00);
        v.push(0x00);
    } else if core == 7 {
        v.push(0x0f);
        v.push(0x1f);
        v.push(0x80);
        v.push(0x00);
        v.push(0x00);
        v.push(0x00);
        v.push(0x00);
    } else {
        v.push(0x0f);
        v.push(0x1f);
        v.push(0x84);
        v.push(0x00);
        v.push(0x00);
        v.push(0x00);
        v.push(0x00);
        v.push(0x00);
    }
    proof {
        lemma_nop_prefix_form(len as int);
        assert(v@ =~= spec_nop(len as int));
    }
    v
}

/// A no-operation encoding longer than eight bytes is prefixes followed by
/// the eight-byte form.
proof fn lemma_nop_prefix_form(len: int)
    requires
        1 <= len <= 15,
    ensures
        len > 8 ==> spec_nop(len) =~= Seq::new((len - 8) as nat, |q: int| 0x66u8) + spec_nop(8),
    decreases len,
{
    if len > 8 {
        lemma_nop_prefix_form(len - 1);
        assert(spec_nop(len) == seq![0x66u8].add(spec_nop(len - 1)));
        if len - 1 > 8 {
            assert(spec_nop(len) =~= Seq::new((len - 8) as nat, |q: int| 0x66u8) + spec_nop(8));
        } else {
            assert(spec_nop(len) =~= Seq::new(1nat, |q: int| 0x66u8) + spec_nop(8));
        }
    }
}

} // verus!
