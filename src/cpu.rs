//! CPU vendor detection from the vendor leaf of the `cpuid` instruction.
//!
//! The vendor leaf holds a twelve-byte ASCII string such as `GenuineIntel`
//! or `AuthenticAMD`, stored little-endian in `ebx`, `edx` and `ecx`, in
//! that order.

use vstd::prelude::*;

verus! {

/// The registers that a `cpuid` instruction returns.
#[derive(Debug, Clone, Copy, PartialEq, Eq, Structural)]
pub struct CpuIdResult {
    pub eax: u32,
    pub ebx: u32,
    pub ecx: u32,
    pub edx: u32,
}

/// A CPU vendor.
#[derive(Debug, Clone, Copy, PartialEq, Eq, Structural)]
pub enum Cpu {
    AMD,
    Intel,
    Unknown,
}

/// The bytes of a register, least significant first.
pub open spec fn word_bytes(w: u32) -> Seq<u8> {
    seq![w as u8, (w >> 8u32) as u8, (w >> 16u32) as u8, (w >> 24u32) as u8]
}

/// The vendor string of a vendor leaf, as bytes.
pub open spec fn vendor_bytes(leaf: CpuIdResult) -> Seq<u8> {
    word_bytes(leaf.ebx) + word_bytes(leaf.edx) + word_bytes(leaf.ecx)
}

/// `AuthenticAMD`, as bytes.
pub open spec fn amd_vendor() -> Seq<u8> {
    seq![0x41u8, 0x75u8, 0x74u8, 0x68u8, 0x65u8, 0x6eu8, 0x74u8, 0x69u8, 0x63u8, 0x41u8, 0x4du8, 0x44u8]
}

/// `GenuineIntel`, as bytes.
pub open spec fn intel_vendor() -> Seq<u8> {
    seq![0x47u8, 0x65u8, 0x6eu8, 0x75u8, 0x69u8, 0x6eu8, 0x65u8, 0x49u8, 0x6eu8, 0x74u8, 0x65u8, 0x6cu8]
}

/// The vendor that a vendor leaf names.
pub open spec fn cpu_of(leaf: CpuIdResult) -> Cpu {
    if vendor_bytes(leaf) == amd_vendor() {
        Cpu::AMD
    } else if vendor_bytes(leaf) == intel_vendor() {
        Cpu::Intel
    } else {
        Cpu::Unknown
    }
}

/// Whether the register `w` holds the bytes `b0` to `b3`, least significant first.
fn word_is(w: u32, b0: u8, b1: u8, b2: u8, b3: u8) -> (r: bool)
    ensures
        r == (word_bytes(w) == seq![b0, b1, b2, b3]),
{
    let r = w as u8 == b0 && (w >> 8u32) as u8 == b1 && (w >> 16u32) as u8 == b2 && (w >> 24u32) as u8 == b3;
    proof {
        let s = word_bytes(w);
        let t = seq![b0, b1, b2, b3];
        if r {
            assert(s =~= t);
        }
        if s == t {
            assert(s[0] == t[0] && s[1] == t[1] && s[2] == t[2] && s[3] == t[3]);
        }
    }
    r
}

/// Twelve bytes read as three groups of four.
proof fn lemma_split_twelve(a: Seq<u8>, b: Seq<u8>, c: Seq<u8>, whole: Seq<u8>)
    requires
        a.len() == 4,
        b.len() == 4,
        c.len() == 4,
        whole.len() == 12,
    ensures
        (a + b + c == whole) <==> (a == whole.subrange(0, 4) && b == whole.subrange(4, 8) && c
            == whole.subrange(8, 12)),
{
    if a + b + c == whole {
        assert(a =~= whole.subrange(0, 4));
        assert(b =~= whole.subrange(4, 8));
        assert(c =~= whole.subrange(8, 12));
    }
    if a == whole.subrange(0, 4) && b == whole.subrange(4, 8) && c == whole.subrange(8, 12) {
        assert(a + b + c =~= whole);
    }
}

/// The vendor named by the vendor leaf of `cpuid` (leaf zero): AMD for
/// `AuthenticAMD`, Intel for `GenuineIntel`, else unknown.
pub fn get_cpu(vendor_leaf: CpuIdResult) -> (r: Cpu)
    ensures
        r == cpu_of(vendor_leaf),
{
    let l = vendor_leaf;
    proof {
        let amd = amd_vendor();
        let intel = intel_vendor();
        lemma_split_twelve(word_bytes(l.ebx), word_bytes(l.edx), word_bytes(l.ecx), amd);
        lemma_split_twelve(word_bytes(l.ebx), word_bytes(l.edx), word_bytes(l.ecx), intel);
        assert(amd.subrange(0, 4) =~= seq![0x41u8, 0x75u8, 0x74u8, 0x68u8]);
        assert(amd.subrange(4, 8) =~= seq![0x65u8, 0x6eu8, 0x74u8, 0x69u8]);
        assert(amd.subrange(8, 12) =~= seq![0x63u8, 0x41u8, 0x4du8, 0x44u8]);
        assert(intel.subrange(0, 4) =~= seq![0x47u8, 0x65u8, 0x6eu8, 0x75u8]);
        assert(intel.subrange(4, 8) =~= seq![0x69u8, 0x6eu8, 0x65u8, 0x49u8]);
        assert(intel.subrange(8, 12) =~= seq![0x6eu8, 0x74u8, 0x65u8, 0x6cu8]);
    }
    // "Auth", "enti", "cAMD"
    if word_is(l.ebx, 0x41u8, 0x75u8, 0x74u8, 0x68u8) && word_is(l.edx, 0x65u8, 0x6eu8, 0x74u8, 0x69u8) && word_is(
        l.ecx,
        0x63u8,
        0x41u8,
        0x4du8,
        0x44u8,
    ) {
        Cpu::AMD
    // "Genu", "ineI", "ntel"
    } else if word_is(l.ebx, 0x47u8, 0x65u8, 0x6eu8, 0x75u8) && word_is(l.edx, 0x69u8, 0x6eu8, 0x65u8, 0x49u8)
        && word_is(l.ecx, 0x6eu8, 0x74u8, 0x65u8, 0x6cu8) {
        Cpu::Intel
    } else {
        Cpu::Unknown
    }
}

} // verus!
