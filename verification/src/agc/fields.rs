//! What the packets hold: each builder's packet, read back from memory DWORD by
//! DWORD, against the arguments of the call that made it.
use vstd::prelude::*;
use crate::agc::laws::law_packet_reads_back;
use crate::agc::packet::{
    allocate, allocation, emit, emit_at, header, hi, lo, remaining_dwords, write_words,
};
use crate::bytes::{
    law_halves_of_bytes, lemma_auto_spec_u32_to_from_le_bytes, lemma_auto_spec_u64_to_from_le_bytes,
    spec_u32_to_le_bytes, spec_u64_to_le_bytes,
};
use crate::context::Machine;
use crate::libsce_agc::{effect, AgcExport};
use crate::mem::{
    law_put_keeps_mapping, load, load_u32, load_u64, load_words, mapped, put_u32, put_u64, Mem,
};

pub mod control;
pub mod draws;
pub mod lists;
pub mod sync;

verus! {

/// The machine behind a call of an export, and the value that the call returns.
pub open spec fn returned(e: AgcExport, m: Machine, a: Seq<u64>) -> (Machine, u64) {
    let (after, reply) = effect(e, m, a);
    (after, reply->Return_0)
}

/// DWORD `i` of the packet at `p`.
pub open spec fn dword(m: Mem, p: u64, i: int) -> Option<u32> {
    load_u32(m, p + 4 * i)
}

/// The 64-bit value that starts at DWORD `i` of the packet at `p`.
pub open spec fn qword(m: Mem, p: u64, i: int) -> Option<u64> {
    load_u64(m, p + 4 * i)
}

/// The 64-bit value of two DWORDs, the low one first.
pub open spec fn joined(low: u32, high: u32) -> u64 {
    (low + 0x1_0000_0000 * high) as u64
}

/// Where the next packet goes in the buffer at `cb`: the 64-bit cursor at 0x10.
pub open spec fn cursor(m: Machine, cb: u64) -> u64 {
    load_u64(m.mem, cb + 0x10)->0
}

/// The buffer at `cb` takes `n` more DWORDs: its cursor (at 0x10), its end (at
/// 0x18) and its reserve (at 0x30) are readable, the packet and the reserve fit
/// in between, and the packet's place is mapped.
pub open spec fn room(m: Machine, cb: u64, n: int) -> bool {
    &&& cb != 0
    &&& load_u64(m.mem, cb + 0x10) is Some
    &&& load_u64(m.mem, cb + 0x18) is Some
    &&& load_u32(m.mem, cb + 0x30) is Some
    &&& cursor(m, cb) != 0
    &&& cursor(m, cb) + 4 * n + 4 * load_u32(m.mem, cb + 0x30)->0 <= load_u64(m.mem, cb + 0x18)->0
    &&& mapped(m.mem, cursor(m, cb) as int, 4 * n as nat)
}

/// What becomes of the DWORDs of a packet: with room for them they stand at the
/// cursor, and wherever the call says that they stand, they can be read.
pub open spec fn stands(m: Machine, cb: u64, words: Seq<u32>, r: (Machine, u64)) -> bool {
    &&& room(m, cb, words.len() as int) ==> r.1 == cursor(m, cb)
    &&& r.1 != 0 ==> {
        &&& r.1 == cursor(m, cb)
        &&& forall|i: int|
            0 <= i < words.len() ==> #[trigger] dword(r.0.mem, r.1, i) == Some(words[i])
        &&& forall|i: int|
            0 <= i < words.len() - 1 ==> #[trigger] qword(r.0.mem, r.1, i) == Some(
                joined(words[i], words[i + 1]),
            )
    }
}

/// The two halves of a 64-bit value in memory.
pub proof fn law_two_dwords_are_one_qword(m: Mem, a: int)
    ensures
        load_u32(m, a) is Some && load_u32(m, a + 4) is Some ==> load_u64(m, a) == Some(
            joined(load_u32(m, a)->0, load_u32(m, a + 4)->0),
        ),
{
    if load_u32(m, a) is Some && load_u32(m, a + 4) is Some {
        assert forall|x: int| a <= x < a + 8 implies #[trigger] m.dom().contains(x) by {
            assert(mapped(m, a, 4) && mapped(m, a + 4, 4));
        }
        let s = load(m, a, 8)->0;
        law_halves_of_bytes(s);
        assert(s.subrange(0, 4) =~= load(m, a, 4)->0);
        assert(s.subrange(4, 8) =~= load(m, a + 4, 4)->0);
    }
}

/// A 64-bit value is its two halves.
pub proof fn law_halves(x: u64)
    ensures
        lo(x) == x % 0x1_0000_0000,
        hi(x) == x / 0x1_0000_0000,
        joined(lo(x), hi(x)) == x,
{
    assert(x as u32 == x % 0x1_0000_0000) by (bit_vector);
    assert((x >> 32) as u32 == x / 0x1_0000_0000) by (bit_vector);
}

pub(crate) proof fn lemma_halves()
    ensures
        forall|x: u64| #[trigger] joined(lo(x), hi(x)) == x,
{
    assert forall|x: u64| #[trigger] joined(lo(x), hi(x)) == x by {
        law_halves(x);
    }
}

/// Two DWORDs, joined by shifting the high one up.
pub(crate) proof fn lemma_or_joins(low: u32, high: u32)
    ensures
        (low as u64) | ((high as u64) << 32) == joined(low, high),
{
    assert((low as u64) | ((high as u64) << 32) == low + 0x1_0000_0000 * high) by (bit_vector);
}

/// An address whose low DWORD is masked, joined again.
pub(crate) proof fn lemma_masked_halves(x: u64, mask: u32)
    ensures
        joined(lo(x) & mask, hi(x)) == x & (0xFFFF_FFFF_0000_0000 | mask as u64),
{
    let low = lo(x) & mask;
    let high = hi(x);
    assert(low + 0x1_0000_0000 * high == x & (0xFFFF_FFFF_0000_0000 | mask as u64))
        by (bit_vector)
        requires
            low == (x as u32) & mask,
            high == (x >> 32) as u32,
    ;
}

/// The header of a packet of `len` DWORDs, as a number: the packet type on top,
/// then the length less two, the opcode, and the discriminator.
pub proof fn law_header_value(len: u32, op: u32, reg: u32)
    requires
        2 <= len <= 0x4001,
        op <= 0xFF,
        reg <= 0x3F,
    ensures
        header(len, op, reg) == 0xC000_0000 + 0x1_0000 * (len - 2) + 0x100 * op + 4 * reg,
{
    let n: u32 = len.wrapping_sub(2);
    assert(n == len - 2);
    assert(0xC000_0000u32 | ((n & 0x3FFF) << 16) | ((op & 0xFF) << 8) | ((reg & 0x3F) << 2)
        == 0xC000_0000 + 0x1_0000 * n + 0x100 * op + 4 * reg) by (bit_vector)
        requires
            n <= 0x3FFFu32,
            op <= 0xFFu32,
            reg <= 0x3Fu32,
    ;
}

pub(crate) proof fn lemma_headers()
    ensures
        forall|len: u32, op: u32, reg: u32|
            2 <= len <= 0x4001 && op <= 0xFF && reg <= 0x3F ==> #[trigger] header(len, op, reg)
                == 0xC000_0000 + 0x1_0000 * (len - 2) + 0x100 * op + 4 * reg,
{
    assert forall|len: u32, op: u32, reg: u32|
        2 <= len <= 0x4001 && op <= 0xFF && reg <= 0x3F implies #[trigger] header(len, op, reg)
            == 0xC000_0000 + 0x1_0000 * (len - 2) + 0x100 * op + 4 * reg by {
        law_header_value(len, op, reg);
    }
}

/// A 32-bit write keeps every range mapped.
pub(crate) proof fn lemma_put_u32_keeps(m: Mem, at: int, v: u32, x: int, n: nat)
    ensures
        mapped(put_u32(m, at, v).0, x, n) == mapped(m, x, n),
        mapped(m, at, 4) == put_u32(m, at, v).1,
{
    lemma_auto_spec_u32_to_from_le_bytes();
    law_put_keeps_mapping(m, at, spec_u32_to_le_bytes(v));
}

/// A 64-bit write keeps every range mapped.
pub(crate) proof fn lemma_put_u64_keeps(m: Mem, at: int, v: u64, x: int, n: nat)
    ensures
        mapped(put_u64(m, at, v).0, x, n) == mapped(m, x, n),
        mapped(m, at, 8) == put_u64(m, at, v).1,
{
    lemma_auto_spec_u64_to_from_le_bytes();
    law_put_keeps_mapping(m, at, spec_u64_to_le_bytes(v));
}

/// Words are written whole where their place is mapped, and whatever was mapped
/// stays so.
pub(crate) proof fn lemma_words_fit(m: Mem, at: int, words: Seq<u32>, x: int, n: nat)
    ensures
        mapped(write_words(m, at, words).0, x, n) == mapped(m, x, n),
        mapped(m, at, 4 * words.len()) ==> write_words(m, at, words).1,
    decreases words.len(),
{
    if words.len() > 0 {
        let init = words.drop_last();
        lemma_words_fit(m, at, init, x, n);
        let before = write_words(m, at, init).0;
        let last = at + 4 * (words.len() - 1);
        lemma_put_u32_keeps(before, last, words.last(), x, n);
        if mapped(m, at, 4 * words.len()) {
            assert forall|i: int| at <= i < at + 4 * init.len() implies #[trigger] m.dom().contains(
                i,
            ) by {}
            assert forall|i: int| last <= i < last + 4 implies #[trigger] m.dom().contains(i) by {}
            assert(mapped(m, at, 4 * init.len()));
            lemma_words_fit(m, at, init, last, 4);
        }
    }
}

/// With room for them, `n` DWORDs are allocated at the cursor, and their place
/// stays mapped.
pub(crate) proof fn lemma_room(m: Machine, cb: u64, n: u64)
    requires
        room(m, cb, n as int),
        n != 0,
    ensures
        allocate(m, cb, n).1 == Some(cursor(m, cb)),
        mapped(allocate(m, cb, n).0.mem, cursor(m, cb) as int, 4 * n as nat),
{
    let up = cursor(m, cb);
    let down = load_u64(m.mem, cb + 0x18)->0;
    let reserved = load_u32(m.mem, cb + 0x30)->0;
    assert((down - up) / 4 >= n + reserved);
    assert(n <= remaining_dwords(up, down, reserved));
    assert(allocation(m.mem, cb, n) == Some(up));
    lemma_put_u64_keeps(m.mem, cb + 0x10, (up + n * 4) as u64, up as int, 4 * n as nat);
}

/// A DWORD of a row, read by itself.
pub(crate) proof fn lemma_word(m: Mem, at: int, words: Seq<u32>, i: int)
    requires
        load_words(m, at, words.len()) == Some(words),
        0 <= i < words.len(),
    ensures
        load_u32(m, at + 4 * i) == Some(words[i]),
{
    assert(load_words(m, at, words.len())->0[i] == load_u32(m, at + 4 * i)->0);
    assert forall|x: int| at + 4 * i <= x < at + 4 * i + 4 implies #[trigger] m.dom().contains(
        x,
    ) by {
        assert(mapped(m, at, 4 * words.len()));
    }
}

/// Two DWORDs of a row, read as one value.
pub(crate) proof fn lemma_word_pair(m: Mem, at: int, words: Seq<u32>, i: int)
    requires
        load_words(m, at, words.len()) == Some(words),
        0 <= i < words.len() - 1,
    ensures
        load_u64(m, at + 4 * i) == Some(joined(words[i], words[i + 1])),
{
    lemma_word(m, at, words, i);
    lemma_word(m, at, words, i + 1);
    law_two_dwords_are_one_qword(m, at + 4 * i);
}

/// DWORDs that can be read in a row can be read one by one, and in pairs.
pub(crate) proof fn lemma_words_at(m: Mem, p: u64, words: Seq<u32>)
    requires
        load_words(m, p as int, words.len()) == Some(words),
    ensures
        forall|i: int| 0 <= i < words.len() ==> #[trigger] dword(m, p, i) == Some(words[i]),
        forall|i: int|
            0 <= i < words.len() - 1 ==> #[trigger] qword(m, p, i) == Some(
                joined(words[i], words[i + 1]),
            ),
{
    assert forall|i: int| 0 <= i < words.len() implies #[trigger] dword(m, p, i) == Some(
        words[i],
    ) by {
        lemma_word(m, p as int, words, i);
    }
    assert forall|i: int| 0 <= i < words.len() - 1 implies #[trigger] qword(m, p, i) == Some(
        joined(words[i], words[i + 1]),
    ) by {
        lemma_word_pair(m, p as int, words, i);
    }
}

/// Every packet that is emitted can be read at the address that the call
/// returned; with room for it, it is emitted, at the cursor.
pub proof fn law_packet_stands(m: Machine, cb: u64, words: Seq<u32>)
    requires
        0 < words.len() <= 0x1_0000_0000,
    ensures
        stands(m, cb, words, emit(m, cb, words)),
{
    let n = words.len() as u64;
    let (after, p) = emit(m, cb, words);
    law_packet_reads_back(m, cb, words);
    if room(m, cb, n as int) {
        lemma_room(m, cb, n);
        lemma_words_fit(allocate(m, cb, n).0.mem, cursor(m, cb) as int, words, 0, 0);
    }
    if p != 0 {
        assert(emit_at(m, cb, words).1 == Some(p));
        lemma_words_at(after.mem, p, words);
    }
}

pub(crate) proof fn lemma_packets()
    ensures
        forall|m: Machine, cb: u64, words: Seq<u32>|
            #![trigger emit(m, cb, words)]
            0 < words.len() <= 0x1_0000_0000 ==> stands(m, cb, words, emit(m, cb, words)),
{
    assert forall|m: Machine, cb: u64, words: Seq<u32>|
        #![trigger emit(m, cb, words)]
        0 < words.len() <= 0x1_0000_0000 implies stands(m, cb, words, emit(m, cb, words)) by {
        law_packet_stands(m, cb, words);
    }
}

} // verus!
