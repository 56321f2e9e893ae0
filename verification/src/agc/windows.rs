//! What is pending behind a graphics submission: where the window begins and ends,
//! how it grows, and which packets in it a compute buffer waits for.
use vstd::prelude::*;
use crate::agc::builders::wait_mem_words;
use crate::agc::fields::{lemma_halves, lemma_or_joins};
use crate::agc::packet::{
    hi, law_header_roundtrip, lo, track_allocation, IT_NOP, R_WAIT_MEM32, R_WAIT_MEM64,
};
use crate::agc::patched::law_header_fields;
use crate::agc::segment::{
    address_at, flush_plan, is_release, is_wait, last_release, lemma_packet_len, packet_len,
    segment_behind, wait_addresses, whole_end,
};
use crate::agc::trace::stack_chain;
use crate::context::AgcPendingGraphicsSegment;
use crate::mem::{load_u64, load_u8, load_words, Mem};
use crate::text::cstring;

verus! {

/// Behind a submission the window is empty, begins where the buffer ends, and is
/// 0x3FFFFC bytes long, or as long as the address space allows.
pub proof fn law_window_behind(address: u64, dwords: u32)
    ensures
        ({
            let s = segment_behind(address, dwords);
            &&& s.start == (address + 4 * dwords) % 0x1_0000_0000_0000_0000
            &&& s.end == s.start
            &&& s.start + 0x3F_FFFC <= u64::MAX ==> s.range_end == s.start + 0x3F_FFFC
            &&& s.start + 0x3F_FFFC > u64::MAX ==> s.range_end == u64::MAX
        }),
{
}

/// An allocation extends what is pending to its own end exactly if it begins in the
/// window at or before the pending end, ends behind that, and stays in the window;
/// otherwise nothing changes.
pub proof fn law_window_grows(s: AgcPendingGraphicsSegment, address: u64, n: u64)
    requires
        address + 4 * n <= u64::MAX,
    ensures
        ({
            let t = track_allocation(s, address, n);
            let joins = address != 0 && n != 0 && s.start != 0 && s.start <= address <= s.end
                && address < s.range_end && s.end < address + 4 * n <= s.range_end;
            &&& t.start == s.start && t.range_end == s.range_end
            &&& joins ==> t.end == address + 4 * n
            &&& !joins ==> t.end == s.end
        }),
{
}

/// The address that a wait was built with is the address that is found in its
/// packet, whatever its width.
pub proof fn law_built_wait_is_found(
    size: u32,
    control: u32,
    address: u64,
    reference: u64,
    mask: u64,
    poll: u32,
)
    ensures
        ({
            let words = wait_mem_words(size, control, address, reference, mask, poll);
            &&& address != 0 ==> wait_addresses(words, 0) == seq![address]
            &&& address == 0 ==> wait_addresses(words, 0) == Seq::<u64>::empty()
        }),
{
    let words = wait_mem_words(size, control, address, reference, mask, poll);
    let n = words.len() as int;
    law_header_roundtrip(6, IT_NOP, R_WAIT_MEM32);
    law_header_roundtrip(9, IT_NOP, R_WAIT_MEM64);
    lemma_halves();
    lemma_or_joins(lo(address), hi(address));
    assert(words[0] >> 30 == 3);
    assert(0x8000_0000u32 >> 30 == 2) by (bit_vector);
    assert(packet_len(words, n, 0) == n);
    assert(address_at(words, 1) == address);
    assert(wait_addresses(words, n) == Seq::<u64>::empty());
    assert(is_wait(words, 0, n));
    assert(seq![address] + Seq::<u64>::empty() =~= seq![address]);
}

/// A release packet with this destination.
pub open spec fn releases(words: Seq<u32>, address: u64) -> bool {
    &&& words.len() == 8
    &&& words[0] == 0xC006_1060u32
    &&& words[3] == lo(address)
    &&& words[4] == hi(address)
}

/// A release is found by what waits for its destination, and by nothing else.
pub proof fn law_built_release_is_found(words: Seq<u32>, address: u64, waits: Seq<u64>)
    requires
        releases(words, address),
    ensures
        waits.contains(address) ==> last_release(words, waits, 0, 0) == 8,
        !waits.contains(address) ==> last_release(words, waits, 0, 0) == 0,
{
    law_header_fields(0xC006_1060u32);
    lemma_halves();
    lemma_or_joins(lo(address), hi(address));
    assert(0xC006_1060u32 >> 30 == 3) by (bit_vector);
    assert(packet_len(words, 8, 0) == 8);
    assert(address_at(words, 3) == address);
    assert(is_release(words, 0, 8));
    reveal_with_fuel(last_release, 2);
}

/// The text at an address: the bytes up to the first zero, at most `max` of them.
pub proof fn law_guest_text(m: Mem, a: int, max: nat)
    requires
        cstring(m, a, max) is Some,
    ensures
        ({
            let s = cstring(m, a, max)->0;
            &&& s.len() <= max
            &&& forall|i: int|
                0 <= i < s.len() ==> load_u8(m, a + i) == Some(#[trigger] s[i]) && s[i] != 0
            &&& s.len() < max ==> load_u8(m, a + s.len()) == Some(0u8)
        }),
    decreases max,
{
    if max > 0 {
        let b = load_u8(m, a)->0;
        if b != 0 {
            law_guest_text(m, a + 1, (max - 1) as nat);
            let rest = cstring(m, a + 1, (max - 1) as nat)->0;
            let s = cstring(m, a, max)->0;
            assert(s == seq![b] + rest);
            assert forall|i: int| 0 <= i < s.len() implies load_u8(m, a + i) == Some(
                #[trigger] s[i],
            ) && s[i] != 0 by {
                if i > 0 {
                    assert(s[i] == rest[i - 1]);
                    assert(load_u8(m, a + 1 + (i - 1)) == Some(rest[i - 1]));
                }
            }
        }
    }
}

/// A trace of the stack holds code addresses only, as distances from the code's base
/// (at 2^44, 4 GiB long): each stands in one of the first 1024 slots of the stack. It
/// is no longer than was asked for.
pub proof fn law_stack_trace(m: Mem, rsp: u64, slot: nat, found: nat, depth: nat)
    requires
        found < depth,
    ensures
        ({
            let t = stack_chain(m, rsp, slot, found, depth);
            &&& t.len() <= depth - found
            &&& forall|i: int| 0 <= i < t.len() ==> #[trigger] t[i] < 0x1_0000_0000
            &&& forall|i: int|
                0 <= i < t.len() ==> exists|k: int|
                    slot <= k < 1024 && #[trigger] load_u64(m, rsp + 8 * k) == Some(
                        (0x1000_0000_0000 + #[trigger] t[i]) as u64,
                    )
        }),
    decreases 1024 - slot,
{
    if slot < 1024 {
        if let Some(v) = load_u64(m, rsp + 8 * slot) {
            let t = stack_chain(m, rsp, slot, found, depth);
            if 0x1000_0000_0000 <= v < 0x1001_0000_0000 {
                let first = (v - 0x1000_0000_0000) as u64;
                assert(load_u64(m, rsp + 8 * (slot as int)) == Some(
                    (0x1000_0000_0000 + first) as u64,
                ));
                if found + 1 < depth {
                    law_stack_trace(m, rsp, slot + 1, found + 1, depth);
                    let rest = stack_chain(m, rsp, slot + 1, found + 1, depth);
                    assert(t == seq![first] + rest);
                    assert forall|i: int| 0 <= i < t.len() implies exists|k: int|
                        slot <= k < 1024 && #[trigger] load_u64(m, rsp + 8 * k) == Some(
                            (0x1000_0000_0000 + #[trigger] t[i]) as u64,
                        ) by {
                        if i > 0 {
                            assert(t[i] == rest[i - 1]);
                        }
                    }
                } else {
                    assert(t == seq![first]);
                }
            } else {
                law_stack_trace(m, rsp, slot + 1, found, depth);
            }
        }
    }
}

/// A packet of `words` begins at `x`, if one begins at `from`.
pub open spec fn reached(words: Seq<u32>, from: int, x: int) -> bool
    decreases words.len() - from,
{
    let n = packet_len(words, words.len() as int, from);
    from == x || (n > 0 && from + n <= words.len() && reached(words, from + n, x))
}

/// The packet at `x` is a release that `waits` ask for.
pub open spec fn awaited(words: Seq<u32>, waits: Seq<u64>, x: int) -> bool {
    let n = packet_len(words, words.len() as int, x);
    n > 0 && is_release(words, x, n) && waits.contains(address_at(words, x + 3))
}

proof fn lemma_last_awaited(words: Seq<u32>, waits: Seq<u64>, at: int, found: int)
    requires
        0 <= found <= at <= words.len(),
    ensures
        ({
            let r = last_release(words, waits, at, found);
            &&& r == found || (at < r <= words.len() && reached(words, at, r) && exists|x: int|
                {
                    &&& #[trigger] reached(words, at, x)
                    &&& awaited(words, waits, x)
                    &&& r == x + packet_len(words, words.len() as int, x)
                })
            &&& forall|x: int| #[trigger]
                reached(words, at, x) && awaited(words, waits, x) ==> x + packet_len(
                    words,
                    words.len() as int,
                    x,
                ) <= r
        }),
    decreases words.len() - at,
{
    let n = packet_len(words, words.len() as int, at);
    lemma_packet_len(words, words.len() as int, at);
    if n > 0 {
        let next = if awaited(words, waits, at) {
            at + n
        } else {
            found
        };
        lemma_last_awaited(words, waits, at + n, next);
        let r = last_release(words, waits, at, found);
        assert(r == last_release(words, waits, at + n, next));
        assert(reached(words, at + n, at + n));
        if r != found {
            if r == next {
                assert(reached(words, at, at));
            } else {
                let x = choose|x: int|
                    {
                        &&& #[trigger] reached(words, at + n, x)
                        &&& awaited(words, waits, x)
                        &&& r == x + packet_len(words, words.len() as int, x)
                    };
                assert(reached(words, at, x));
            }
        }
        assert forall|x: int| #[trigger]
            reached(words, at, x) && awaited(words, waits, x) implies x + packet_len(
            words,
            words.len() as int,
            x,
        ) <= r by {
            if x != at {
                assert(reached(words, at + n, x));
            }
        }
    } else {
        assert forall|x: int| #[trigger]
            reached(words, at, x) && awaited(words, waits, x) implies x + packet_len(
            words,
            words.len() as int,
            x,
        ) <= found by {}
    }
}

proof fn lemma_reached_is_whole(words: Seq<u32>, at: int, end: int)
    requires
        0 <= at <= words.len(),
        reached(words, at, end),
    ensures
        at <= end <= words.len(),
        whole_end(words, end, at) == end,
    decreases words.len() - at,
{
    if at != end {
        let n = packet_len(words, words.len() as int, at);
        lemma_packet_len(words, words.len() as int, at);
        lemma_reached_is_whole(words, at + n, end);
        assert(packet_len(words, end, at) == n);
    }
}

/// What is submitted ahead of a compute stream holds every pending release that the
/// stream waits for.
pub proof fn law_awaited_releases_are_flushed(
    m: Mem,
    s: AgcPendingGraphicsSegment,
    stream: Seq<u32>,
    x: int,
)
    requires
        s.start != 0,
        s.start < s.end,
        (s.end - s.start) / 4 <= 1_000_000,
        load_words(m, s.start as int, ((s.end - s.start) / 4) as nat) is Some,
        ({
            let words = load_words(m, s.start as int, ((s.end - s.start) / 4) as nat)->0;
            &&& 0 <= x < words.len()
            &&& reached(words, 0, x)
            &&& awaited(words, wait_addresses(stream, 0), x)
        }),
    ensures
        ({
            let words = load_words(m, s.start as int, ((s.end - s.start) / 4) as nat)->0;
            let (segment, n) = flush_plan(m, s, stream);
            &&& n is Some
            &&& x + packet_len(words, words.len() as int, x) <= n->0
            &&& segment.start == s.start && segment.end == s.start + 4 * n->0
        }),
{
    let words = load_words(m, s.start as int, ((s.end - s.start) / 4) as nat)->0;
    let waits = wait_addresses(stream, 0);
    let matched = last_release(words, waits, 0, 0);
    lemma_last_awaited(words, waits, 0, 0);
    assert(waits.len() > 0);
    assert(matched > 0);
    lemma_reached_is_whole(words, 0, matched);
}

/// What is submitted ahead of a compute stream ends with the last pending release that
/// the stream waits for: nothing behind it goes ahead of the stream.
pub proof fn law_flush_ends_with_the_last_awaited(
    m: Mem,
    s: AgcPendingGraphicsSegment,
    stream: Seq<u32>,
    x: int,
)
    requires
        s.start != 0,
        s.start < s.end,
        (s.end - s.start) / 4 <= 1_000_000,
        load_words(m, s.start as int, ((s.end - s.start) / 4) as nat) is Some,
        ({
            let words = load_words(m, s.start as int, ((s.end - s.start) / 4) as nat)->0;
            let waits = wait_addresses(stream, 0);
            &&& 0 <= x < words.len()
            &&& reached(words, 0, x)
            &&& awaited(words, waits, x)
            &&& forall|y: int| #[trigger]
                reached(words, 0, y) && awaited(words, waits, y) ==> y + packet_len(
                    words,
                    words.len() as int,
                    y,
                ) <= x + packet_len(words, words.len() as int, x)
        }),
    ensures
        ({
            let words = load_words(m, s.start as int, ((s.end - s.start) / 4) as nat)->0;
            flush_plan(m, s, stream).1->0 == x + packet_len(words, words.len() as int, x)
        }),
{
    let words = load_words(m, s.start as int, ((s.end - s.start) / 4) as nat)->0;
    let waits = wait_addresses(stream, 0);
    let matched = last_release(words, waits, 0, 0);
    lemma_last_awaited(words, waits, 0, 0);
    assert(waits.len() > 0);
    lemma_reached_is_whole(words, 0, matched);
}

/// A compute stream that waits for nothing pending is preceded by every whole packet
/// that is pending.
pub proof fn law_unawaited_packets_are_flushed(
    m: Mem,
    s: AgcPendingGraphicsSegment,
    stream: Seq<u32>,
    x: int,
)
    requires
        s.start != 0,
        s.start < s.end,
        (s.end - s.start) / 4 <= 1_000_000,
        wait_addresses(stream, 0).len() == 0,
        load_words(m, s.start as int, ((s.end - s.start) / 4) as nat) is Some,
        ({
            let words = load_words(m, s.start as int, ((s.end - s.start) / 4) as nat)->0;
            0 < x <= words.len() && reached(words, 0, x)
        }),
    ensures
        flush_plan(m, s, stream).1 is Some,
        x <= flush_plan(m, s, stream).1->0,
{
    let words = load_words(m, s.start as int, ((s.end - s.start) / 4) as nat)->0;
    lemma_whole_covers(words, 0, x);
}

proof fn lemma_whole_covers(words: Seq<u32>, at: int, x: int)
    requires
        0 <= at <= words.len(),
        reached(words, at, x),
    ensures
        x <= whole_end(words, words.len() as int, at) <= words.len(),
    decreases words.len() - at,
{
    let n = packet_len(words, words.len() as int, at);
    lemma_packet_len(words, words.len() as int, at);
    if n > 0 {
        if at != x {
            lemma_whole_covers(words, at + n, x);
        } else {
            assert(reached(words, at + n, at + n));
            lemma_whole_covers(words, at + n, at + n);
        }
    }
}

/// A filler (0x80000000) is a packet of one DWORD; any other packet is as long as its
/// header says, and has the packet type 3 on top.
pub proof fn law_packet_length(words: Seq<u32>, at: int)
    requires
        0 <= at < words.len(),
    ensures
        ({
            let w = words[at];
            let n = packet_len(words, words.len() as int, at);
            let stated = w / 0x1_0000 % 0x4000 + 2;
            &&& w == 0x8000_0000 ==> n == 1
            &&& w != 0x8000_0000 && w >= 0xC000_0000 && at + stated <= words.len() ==> n == stated
            &&& w != 0x8000_0000 && (w < 0xC000_0000 || at + stated > words.len()) ==> n == 0
        }),
{
    let w = words[at];
    law_header_fields(w);
    assert((w >> 30 == 3) <==> (w >= 0xC000_0000)) by (bit_vector);
}

/// Which packets wait and which release, by what their headers say: all are of the kind
/// 0x10; a wait on 32 bits (0x0A) is at least six DWORDs long, one on 64 bits (0x16)
/// nine, and a release (0x18) seven.
pub proof fn law_waits_and_releases(words: Seq<u32>, at: int, n: int)
    ensures
        ({
            let h = words[at];
            let own = h != 0x8000_0000 && h / 0x100 % 0x100 == 0x10;
            &&& is_wait(words, at, n) <==> own && (h / 4 % 0x40 == 0x0A && n >= 6 || h / 4 % 0x40
                == 0x16 && n >= 9)
            &&& is_release(words, at, n) <==> own && h / 4 % 0x40 == 0x18 && n >= 7
        }),
{
    law_header_fields(words[at]);
}

} // verus!
