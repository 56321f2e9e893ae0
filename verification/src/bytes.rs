//! Little-endian byte strings: what a string of bytes is worth as an integer,
//! and the bytes that an integer is stored as.
use vstd::prelude::*;

verus! {

/// The value of two bytes, the least significant first.
#[verifier::opaque]
pub open spec fn spec_u16_from_le_bytes(s: Seq<u8>) -> u16
    recommends
        s.len() == 2,
{
    (s[0] + 0x100 * s[1]) as u16
}

/// The value of four bytes, the least significant first.
#[verifier::opaque]
pub open spec fn spec_u32_from_le_bytes(s: Seq<u8>) -> u32
    recommends
        s.len() == 4,
{
    (s[0] + 0x100 * (s[1] + 0x100 * (s[2] + 0x100 * s[3]))) as u32
}

/// The value of eight bytes: four for the low half, then four for the high half.
#[verifier::opaque]
pub open spec fn spec_u64_from_le_bytes(s: Seq<u8>) -> u64
    recommends
        s.len() == 8,
{
    (spec_u32_from_le_bytes(s.subrange(0, 4)) + 0x1_0000_0000 * spec_u32_from_le_bytes(
        s.subrange(4, 8),
    )) as u64
}

/// The four bytes of a value, the least significant first.
#[verifier::opaque]
pub open spec fn spec_u32_to_le_bytes(x: u32) -> Seq<u8> {
    seq![
        (x % 0x100) as u8,
        (x / 0x100 % 0x100) as u8,
        (x / 0x100 / 0x100 % 0x100) as u8,
        (x / 0x100 / 0x100 / 0x100) as u8,
    ]
}

/// The eight bytes of a value: those of its low half, then those of its high
/// half.
#[verifier::opaque]
pub open spec fn spec_u64_to_le_bytes(x: u64) -> Seq<u8> {
    spec_u32_to_le_bytes((x % 0x1_0000_0000) as u32) + spec_u32_to_le_bytes(
        (x / 0x1_0000_0000) as u32,
    )
}

/// Storing and loading 32 bits undo each other.
pub proof fn lemma_auto_spec_u32_to_from_le_bytes()
    ensures
        forall|x: u32| #[trigger]
            spec_u32_to_le_bytes(x).len() == 4 && spec_u32_from_le_bytes(spec_u32_to_le_bytes(x))
                == x,
        forall|s: Seq<u8>|
            s.len() == 4 ==> #[trigger] spec_u32_to_le_bytes(spec_u32_from_le_bytes(s)) == s,
{
    reveal(spec_u32_to_le_bytes);
    reveal(spec_u32_from_le_bytes);
    assert forall|s: Seq<u8>| s.len() == 4 implies #[trigger] spec_u32_to_le_bytes(
        spec_u32_from_le_bytes(s),
    ) == s by {
        let high = s[2] + 0x100 * s[3];
        let rest = s[1] + 0x100 * high;
        let x = s[0] + 0x100 * rest;
        assert(x / 0x100 == rest && rest / 0x100 == high);
        assert(spec_u32_to_le_bytes(spec_u32_from_le_bytes(s)) =~= s);
    }
}

/// Storing and loading 64 bits undo each other.
pub proof fn lemma_auto_spec_u64_to_from_le_bytes()
    ensures
        forall|x: u64| #[trigger]
            spec_u64_to_le_bytes(x).len() == 8 && spec_u64_from_le_bytes(spec_u64_to_le_bytes(x))
                == x,
        forall|s: Seq<u8>|
            s.len() == 8 ==> #[trigger] spec_u64_to_le_bytes(spec_u64_from_le_bytes(s)) == s,
{
    reveal(spec_u64_to_le_bytes);
    reveal(spec_u64_from_le_bytes);
    lemma_auto_spec_u32_to_from_le_bytes();
    assert forall|x: u64| #[trigger]
        spec_u64_to_le_bytes(x).len() == 8 && spec_u64_from_le_bytes(spec_u64_to_le_bytes(x))
            == x by {
        let s = spec_u64_to_le_bytes(x);
        assert(s.subrange(0, 4) =~= spec_u32_to_le_bytes((x % 0x1_0000_0000) as u32));
        assert(s.subrange(4, 8) =~= spec_u32_to_le_bytes((x / 0x1_0000_0000) as u32));
    }
    assert forall|s: Seq<u8>| s.len() == 8 implies #[trigger] spec_u64_to_le_bytes(
        spec_u64_from_le_bytes(s),
    ) == s by {
        let low = spec_u32_from_le_bytes(s.subrange(0, 4));
        let high = spec_u32_from_le_bytes(s.subrange(4, 8));
        let x = low + 0x1_0000_0000 * high;
        assert(x % 0x1_0000_0000 == low && x / 0x1_0000_0000 == high);
        assert(s.subrange(0, 4) + s.subrange(4, 8) =~= s);
    }
}

/// The value of two bytes.
pub fn u16_from_le_bytes(s: &[u8]) -> (x: u16)
    requires
        s@.len() == 2,
    ensures
        x == spec_u16_from_le_bytes(s@),
{
    proof {
        reveal(spec_u16_from_le_bytes);
    }
    s[0] as u16 + 0x100 * (s[1] as u16)
}

/// The value of four bytes.
pub fn u32_from_le_bytes(s: &[u8]) -> (x: u32)
    requires
        s@.len() == 4,
    ensures
        x == spec_u32_from_le_bytes(s@),
{
    proof {
        reveal(spec_u32_from_le_bytes);
    }
    s[0] as u32 + 0x100 * (s[1] as u32 + 0x100 * (s[2] as u32 + 0x100 * (s[3] as u32)))
}

/// The value of eight bytes.
pub fn u64_from_le_bytes(s: &[u8]) -> (x: u64)
    requires
        s@.len() == 8,
    ensures
        x == spec_u64_from_le_bytes(s@),
{
    let low: u32 = s[0] as u32 + 0x100 * (s[1] as u32 + 0x100 * (s[2] as u32 + 0x100 * (
    s[3] as u32)));
    let high: u32 = s[4] as u32 + 0x100 * (s[5] as u32 + 0x100 * (s[6] as u32 + 0x100 * (
    s[7] as u32)));
    proof {
        reveal(spec_u64_from_le_bytes);
        reveal(spec_u32_from_le_bytes);
    }
    low as u64 + 0x1_0000_0000 * (high as u64)
}

/// The four bytes of a value.
pub fn u32_to_le_bytes(x: u32) -> (s: Vec<u8>)
    ensures
        s@ == spec_u32_to_le_bytes(x),
        s@.len() == 4,
{
    proof {
        reveal(spec_u32_to_le_bytes);
    }
    let s: Vec<u8> = vec![
        (x % 0x100) as u8,
        (x / 0x100 % 0x100) as u8,
        (x / 0x100 / 0x100 % 0x100) as u8,
        (x / 0x100 / 0x100 / 0x100) as u8,
    ];
    assert(s@ =~= spec_u32_to_le_bytes(x));
    s
}

/// The eight bytes of a value.
pub fn u64_to_le_bytes(x: u64) -> (s: Vec<u8>)
    ensures
        s@ == spec_u64_to_le_bytes(x),
        s@.len() == 8,
{
    let low: u32 = (x % 0x1_0000_0000) as u32;
    let high: u32 = (x / 0x1_0000_0000) as u32;
    proof {
        reveal(spec_u64_to_le_bytes);
        reveal(spec_u32_to_le_bytes);
    }
    let s: Vec<u8> = vec![
        (low % 0x100) as u8,
        (low / 0x100 % 0x100) as u8,
        (low / 0x100 / 0x100 % 0x100) as u8,
        (low / 0x100 / 0x100 / 0x100) as u8,
        (high % 0x100) as u8,
        (high / 0x100 % 0x100) as u8,
        (high / 0x100 / 0x100 % 0x100) as u8,
        (high / 0x100 / 0x100 / 0x100) as u8,
    ];
    assert(s@ =~= spec_u64_to_le_bytes(x));
    s
}

/// Eight bytes are worth the first four, and the other four as the high half.
pub proof fn law_halves_of_bytes(s: Seq<u8>)
    requires
        s.len() == 8,
    ensures
        spec_u64_from_le_bytes(s) == spec_u32_from_le_bytes(s.subrange(0, 4)) + 0x1_0000_0000
            * spec_u32_from_le_bytes(s.subrange(4, 8)),
{
    reveal(spec_u64_from_le_bytes);
}

} // verus!
