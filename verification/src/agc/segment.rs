//! The pending graphics segment: graphics commands that were built behind the
//! last submission and must run before compute work that waits for them.
use vstd::prelude::*;
use crate::agc::packet::{
    header_dwords, header_op, header_reg, pm4_total_dwords, track_allocation, IT_NOP, R_RELEASE_MEM,
    R_WAIT_MEM32, R_WAIT_MEM64,
};
use crate::context::{AgcPendingGraphicsSegment, AgcState, HleContext, Machine};
use crate::mem::{load_words, Mem};

verus! {

/// How far the tracked window reaches behind its start.
pub const PENDING_SEGMENT_RANGE_BYTES: u64 = 0x3F_FFFC;

/// The longest stream that is accepted, in DWORDs.
pub const MAX_STREAM_DWORDS: u32 = 1_000_000;

/// A one-DWORD filler.
pub const FILLER: u32 = 0x8000_0000;

/// The machine with another pending segment.
pub open spec fn with_segment(m: Machine, s: AgcPendingGraphicsSegment) -> Machine {
    Machine { agc: AgcState { segment: s, ..m.agc }, ..m }
}

/// No pending segment.
pub open spec fn no_segment() -> AgcPendingGraphicsSegment {
    AgcPendingGraphicsSegment { start: 0, end: 0, range_end: 0 }
}

/// The segment lies inside its window.
pub open spec fn segment_ok(s: AgcPendingGraphicsSegment) -> bool {
    s.start <= s.end <= s.range_end
}

/// The empty segment behind a stream, with a window of fixed length. Addresses
/// are modulo 2^64; the window stops at the top of the address space.
pub open spec fn segment_behind(address: u64, dwords: u32) -> AgcPendingGraphicsSegment {
    let start = address.wrapping_add((dwords * 4) as u64);
    AgcPendingGraphicsSegment {
        start,
        end: start,
        range_end: if start + PENDING_SEGMENT_RANGE_BYTES > u64::MAX {
            u64::MAX
        } else {
            (start + PENDING_SEGMENT_RANGE_BYTES) as u64
        },
    }
}

/// Start tracking behind a submitted graphics stream. An empty stream, or one
/// at the null address, changes nothing.
pub fn track_pending_graphics_segment_after_submit(ctx: &mut HleContext, address: u64, dwords: u32)
    ensures
        final(ctx)@ == if address == 0 || dwords == 0 {
            old(ctx)@
        } else {
            with_segment(old(ctx)@, segment_behind(address, dwords))
        },
{
    if address == 0 || dwords == 0 {
        return;
    }
    let start: u64 = address.wrapping_add(dwords as u64 * 4);
    let range_end: u64 = if start > u64::MAX - PENDING_SEGMENT_RANGE_BYTES {
        u64::MAX
    } else {
        start + PENDING_SEGMENT_RANGE_BYTES
    };
    ctx.kernel.agc.segment = AgcPendingGraphicsSegment { start, end: start, range_end };
}

/// The length of the packet at `at`, or zero when no whole packet is there: a
/// filler, or a type-3 packet that ends by `limit`.
pub open spec fn packet_len(words: Seq<u32>, limit: int, at: int) -> int {
    if !(0 <= at < limit <= words.len()) {
        0
    } else if words[at] == FILLER {
        1
    } else if words[at] >> 30 != 3 || at + header_dwords(words[at]) > limit {
        0
    } else {
        header_dwords(words[at])
    }
}

/// A packet has a length of at least one DWORD and ends by `limit`.
pub proof fn lemma_packet_len(words: Seq<u32>, limit: int, at: int)
    ensures
        0 <= packet_len(words, limit, at) <= 0x4001,
        packet_len(words, limit, at) > 0 ==> 0 <= at && at + packet_len(words, limit, at) <= limit
            <= words.len(),
{
    if 0 <= at < limit <= words.len() {
        let h = words[at];
        assert(((h >> 16) & 0x3FFFu32) <= 0x3FFFu32) by (bit_vector);
    }
}

/// Find the length of the packet at `at`.
fn measure_packet(words: &[u32], limit: usize, at: usize) -> (r: usize)
    requires
        at < limit <= words@.len(),
    ensures
        r == packet_len(words@, limit as int, at as int),
        r <= limit - at,
{
    proof {
        lemma_packet_len(words@, limit as int, at as int);
    }
    let h: u32 = words[at];
    if h == FILLER {
        return 1;
    }
    if h >> 30 != 3 {
        return 0;
    }
    let n: usize = pm4_total_dwords(h);
    if n > limit - at {
        return 0;
    }
    n
}

/// A 64-bit address held in two DWORDs.
pub open spec fn address_at(words: Seq<u32>, i: int) -> u64 {
    (words[i] as u64) | ((words[i + 1] as u64) << 32)
}

/// The packet at `at`, `n` DWORDs long, waits for a memory value.
pub open spec fn is_wait(words: Seq<u32>, at: int, n: int) -> bool {
    words[at] != FILLER && header_op(words[at]) == IT_NOP && ((header_reg(words[at]) == R_WAIT_MEM32
        && n >= 6) || (header_reg(words[at]) == R_WAIT_MEM64 && n >= 9))
}

/// The packet at `at`, `n` DWORDs long, writes memory at the end of the pipe.
pub open spec fn is_release(words: Seq<u32>, at: int, n: int) -> bool {
    words[at] != FILLER && header_op(words[at]) == IT_NOP && header_reg(words[at]) == R_RELEASE_MEM
        && n >= 7
}

/// The non-null addresses that the packets from `at` on wait for, in order.
pub open spec fn wait_addresses(words: Seq<u32>, at: int) -> Seq<u64>
    decreases words.len() - at,
{
    let n = packet_len(words, words.len() as int, at);
    if n <= 0 {
        Seq::empty()
    } else if is_wait(words, at, n) && address_at(words, at + 1) != 0 {
        seq![address_at(words, at + 1)] + wait_addresses(words, at + n)
    } else {
        wait_addresses(words, at + n)
    }
}

/// Collect the addresses that a compute stream waits for.
pub fn collect_acb_wait_addresses(words: &[u32]) -> (r: Vec<u64>)
    ensures
        r@ == wait_addresses(words@, 0),
{
    let mut out: Vec<u64> = Vec::new();
    let mut at: usize = 0;
    assert(out@ + wait_addresses(words@, 0) =~= wait_addresses(words@, 0));
    while at < words.len()
        invariant_except_break
            out@ + wait_addresses(words@, at as int) == wait_addresses(words@, 0),
        invariant
            at <= words@.len(),
        ensures
            out@ == wait_addresses(words@, 0),
        decreases words@.len() - at,
    {
        let n: usize = measure_packet(words, words.len(), at);
        if n == 0 {
            assert(out@ + Seq::<u64>::empty() =~= out@);
            break;
        }
        let h: u32 = words[at];
        let op: u32 = (h >> 8) & 0xFF;
        let reg: u32 = (h >> 2) & 0x3F;
        if h != FILLER && op == IT_NOP && ((reg == R_WAIT_MEM32 && n >= 6) || (reg == R_WAIT_MEM64
            && n >= 9)) {
            let address: u64 = (words[at + 1] as u64) | ((words[at + 2] as u64) << 32);
            if address != 0 {
                let ghost rest = wait_addresses(words@, at + n);
                assert(out@.push(address) + rest =~= out@ + (seq![address] + rest));
                out.push(address);
            }
        }
        at += n;
        assert(at == words@.len() ==> out@ + wait_addresses(words@, at as int) =~= out@);
    }
    out
}

/// The end of the last packet from `at` on that releases one of `waits`, or
/// `found` when there is none.
pub open spec fn last_release(words: Seq<u32>, waits: Seq<u64>, at: int, found: int) -> int
    decreases words.len() - at,
{
    let n = packet_len(words, words.len() as int, at);
    if n <= 0 {
        found
    } else {
        last_release(
            words,
            waits,
            at + n,
            if is_release(words, at, n) && waits.contains(address_at(words, at + 3)) {
                at + n
            } else {
                found
            },
        )
    }
}

proof fn lemma_last_release(words: Seq<u32>, waits: Seq<u64>, at: int, found: int)
    requires
        0 <= found <= words.len(),
    ensures
        0 <= last_release(words, waits, at, found) <= words.len(),
    decreases words.len() - at,
{
    let n = packet_len(words, words.len() as int, at);
    lemma_packet_len(words, words.len() as int, at);
    if n > 0 {
        if is_release(words, at, n) && waits.contains(address_at(words, at + 3)) {
            lemma_last_release(words, waits, at + n, at + n);
        } else {
            lemma_last_release(words, waits, at + n, found);
        }
    }
}

/// Whether `list` holds `v`.
fn contains_address(list: &Vec<u64>, v: u64) -> (r: bool)
    ensures
        r == list@.contains(v),
{
    let mut i: usize = 0;
    while i < list.len()
        invariant
            i <= list@.len(),
            forall|j: int| 0 <= j < i ==> list@[j] != v,
        decreases list@.len() - i,
    {
        if list[i] == v {
            assert(list@[i as int] == v);
            return true;
        }
        i += 1;
    }
    false
}

/// Find the end of the last packet that releases one of `waits`.
fn find_last_release(words: &[u32], waits: &Vec<u64>) -> (r: usize)
    ensures
        r == last_release(words@, waits@, 0, 0),
        r <= words@.len(),
{
    let mut found: usize = 0;
    let mut at: usize = 0;
    proof {
        lemma_last_release(words@, waits@, 0, 0);
    }
    while at < words.len()
        invariant_except_break
            last_release(words@, waits@, at as int, found as int) == last_release(
                words@,
                waits@,
                0,
                0,
            ),
        invariant
            at <= words@.len(),
            found <= words@.len(),
        ensures
            found == last_release(words@, waits@, 0, 0),
        decreases words@.len() - at,
    {
        let n: usize = measure_packet(words, words.len(), at);
        if n == 0 {
            break;
        }
        let h: u32 = words[at];
        let op: u32 = (h >> 8) & 0xFF;
        let reg: u32 = (h >> 2) & 0x3F;
        if h != FILLER && op == IT_NOP && reg == R_RELEASE_MEM && n >= 7 {
            let address: u64 = (words[at + 3] as u64) | ((words[at + 4] as u64) << 32);
            if contains_address(waits, address) {
                found = at + n;
            }
        }
        at += n;
    }
    found
}

/// Where the whole packets from `at` on end.
pub open spec fn whole_end(words: Seq<u32>, limit: int, at: int) -> int
    decreases limit - at,
{
    let n = packet_len(words, limit, at);
    if n <= 0 {
        at
    } else {
        whole_end(words, limit, at + n)
    }
}

proof fn lemma_whole_end(words: Seq<u32>, limit: int, at: int)
    requires
        0 <= at <= limit <= words.len(),
    ensures
        at <= whole_end(words, limit, at) <= limit,
    decreases limit - at,
{
    let n = packet_len(words, limit, at);
    lemma_packet_len(words, limit, at);
    if n > 0 {
        lemma_whole_end(words, limit, at + n);
    }
}

/// Find where the whole packets of the first `limit` DWORDs end.
fn find_whole_end(words: &[u32], limit: usize) -> (r: usize)
    requires
        limit <= words@.len(),
    ensures
        r == whole_end(words@, limit as int, 0),
        r <= limit,
{
    let mut at: usize = 0;
    while at < limit
        invariant
            at <= limit <= words@.len(),
            whole_end(words@, limit as int, at as int) == whole_end(words@, limit as int, 0),
        decreases limit - at,
    {
        let n: usize = measure_packet(words, limit, at);
        if n == 0 {
            return at;
        }
        at += n;
    }
    at
}

/// What becomes of the pending segment before a compute stream runs: the
/// segment afterwards, and how many DWORDs of it to submit first. The segment
/// ends with the last packet that releases a label the stream waits for, when
/// there is one, and never in the middle of a packet. An unreadable segment is
/// dropped.
pub open spec fn flush_plan(m: Mem, s: AgcPendingGraphicsSegment, stream: Seq<u32>) -> (
    AgcPendingGraphicsSegment,
    Option<u32>,
) {
    let length = (s.end - s.start) / 4;
    let total = if length < MAX_STREAM_DWORDS {
        length
    } else {
        MAX_STREAM_DWORDS as int
    };
    if s.start == 0 || s.end <= s.start {
        (s, None)
    } else {
        match load_words(m, s.start as int, total as nat) {
            None => (no_segment(), None),
            Some(words) => {
                let waits = wait_addresses(stream, 0);
                let matched = last_release(words, waits, 0, 0);
                let end1 = if waits.len() > 0 && matched > 0 {
                    s.start + 4 * matched
                } else {
                    s.end as int
                };
                let length1 = (end1 - s.start) / 4;
                let limit = if length1 < words.len() {
                    length1
                } else {
                    words.len() as int
                };
                let whole = whole_end(words, limit, 0);
                let end2 = if whole < limit {
                    s.start + 4 * whole
                } else {
                    end1
                };
                (
                    AgcPendingGraphicsSegment { end: end2 as u64, ..s },
                    if end2 <= s.start {
                        None
                    } else {
                        Some(((end2 - s.start) / 4) as u32)
                    },
                )
            },
        }
    }
}

/// Prepare the pending segment for submission ahead of the compute stream
/// `stream`; the number of DWORDs to submit, if any.
pub fn plan_flush(ctx: &mut HleContext, stream: &[u32]) -> (r: Option<u32>)
    ensures
        final(ctx)@ == with_segment(
            old(ctx)@,
            flush_plan(old(ctx)@.mem, old(ctx)@.agc.segment, stream@).0,
        ),
        r == flush_plan(old(ctx)@.mem, old(ctx)@.agc.segment, stream@).1,
{
    let waits = collect_acb_wait_addresses(stream);
    let s = ctx.kernel.agc.segment;
    if s.start == 0 || s.end <= s.start {
        return None;
    }
    let length: u64 = (s.end - s.start) / 4;
    let total: u64 = if length < MAX_STREAM_DWORDS as u64 {
        length
    } else {
        MAX_STREAM_DWORDS as u64
    };
    let words = match ctx.mem.read_words(s.start, 0, total as usize) {
        Some(words) => words,
        None => {
            ctx.kernel.agc.segment = AgcPendingGraphicsSegment { start: 0, end: 0, range_end: 0 };
            return None;
        },
    };
    let mut end: u64 = s.end;
    if waits.len() > 0 {
        let matched: usize = find_last_release(words.as_slice(), &waits);
        if matched > 0 {
            end = s.start + 4 * (matched as u64);
        }
    }
    let length1: u64 = (end - s.start) / 4;
    let limit: usize = if length1 < words.len() as u64 {
        length1 as usize
    } else {
        words.len()
    };
    let whole: usize = find_whole_end(words.as_slice(), limit);
    if whole < limit {
        end = s.start + 4 * (whole as u64);
    }
    ctx.kernel.agc.segment.end = end;
    if end <= s.start {
        return None;
    }
    Some(((end - s.start) / 4) as u32)
}

/// Building packets keeps the pending segment inside its window.
pub proof fn law_allocation_keeps_segment(s: AgcPendingGraphicsSegment, address: u64, n: u64)
    requires
        segment_ok(s),
    ensures
        segment_ok(track_allocation(s, address, n)),
        track_allocation(s, address, n).start == s.start,
        s.end <= track_allocation(s, address, n).end,
{
}

/// The segment that follows a submitted stream is empty and well placed.
pub proof fn law_segment_behind(address: u64, dwords: u32)
    ensures
        segment_ok(segment_behind(address, dwords)),
        segment_behind(address, dwords).start == segment_behind(address, dwords).end,
{
}

/// Planning a flush keeps the segment inside its window and never lets it grow.
pub proof fn law_flush_keeps_segment(m: Mem, s: AgcPendingGraphicsSegment, stream: Seq<u32>)
    requires
        segment_ok(s),
    ensures
        segment_ok(flush_plan(m, s, stream).0),
        flush_plan(m, s, stream).1 is Some ==> flush_plan(m, s, stream).0.start == s.start && s.start
            < flush_plan(m, s, stream).0.end <= s.end,
{
    let length = (s.end - s.start) / 4;
    let total = if length < MAX_STREAM_DWORDS {
        length
    } else {
        MAX_STREAM_DWORDS as int
    };
    if s.start != 0 && s.end > s.start {
        match load_words(m, s.start as int, total as nat) {
            None => {},
            Some(words) => {
                let waits = wait_addresses(stream, 0);
                lemma_last_release(words, waits, 0, 0);
                let matched = last_release(words, waits, 0, 0);
                let end1 = if waits.len() > 0 && matched > 0 {
                    s.start + 4 * matched
                } else {
                    s.end as int
                };
                let length1 = (end1 - s.start) / 4;
                let limit = if length1 < words.len() {
                    length1
                } else {
                    words.len() as int
                };
                lemma_whole_end(words, limit, 0);
            },
        }
    }
}

/// `words[..end]` is a sequence of whole packets.
pub open spec fn whole_packets(words: Seq<u32>, at: int, end: int) -> bool
    decreases end - at,
{
    if at >= end {
        at == end
    } else {
        let n = packet_len(words, end, at);
        n > 0 && whole_packets(words, at + n, end)
    }
}

proof fn lemma_whole_packets(words: Seq<u32>, limit: int, at: int)
    requires
        0 <= at <= limit <= words.len(),
    ensures
        whole_packets(words, at, whole_end(words, limit, at)),
    decreases limit - at,
{
    let n = packet_len(words, limit, at);
    lemma_packet_len(words, limit, at);
    if n > 0 {
        lemma_whole_end(words, limit, at + n);
        lemma_whole_packets(words, limit, at + n);
    }
}

/// What is submitted ahead of a compute stream consists of whole packets,
/// whenever the pending segment fits the longest accepted stream.
pub proof fn law_flush_is_whole(m: Mem, s: AgcPendingGraphicsSegment, stream: Seq<u32>)
    requires
        flush_plan(m, s, stream).1 is Some,
        (s.end - s.start) / 4 <= MAX_STREAM_DWORDS,
    ensures
        ({
            let n = flush_plan(m, s, stream).1->0;
            &&& load_words(m, s.start as int, ((s.end - s.start) / 4) as nat) is Some
            &&& whole_packets(
                load_words(m, s.start as int, ((s.end - s.start) / 4) as nat)->0,
                0,
                n as int,
            )
        }),
{
    let words = load_words(m, s.start as int, ((s.end - s.start) / 4) as nat)->0;
    let waits = wait_addresses(stream, 0);
    lemma_last_release(words, waits, 0, 0);
    let matched = last_release(words, waits, 0, 0);
    let end1 = if waits.len() > 0 && matched > 0 {
        s.start + 4 * matched
    } else {
        s.end as int
    };
    let length1 = (end1 - s.start) / 4;
    let limit = if length1 < words.len() {
        length1
    } else {
        words.len() as int
    };
    lemma_whole_end(words, limit, 0);
    lemma_whole_packets(words, limit, 0);
}

proof fn lemma_waits_behind(p: Seq<u32>, w: Seq<u32>, at: int)
    requires
        0 <= at <= w.len(),
    ensures
        wait_addresses(p + w, p.len() + at) == wait_addresses(w, at),
    decreases w.len() - at,
{
    let n = packet_len(w, w.len() as int, at);
    lemma_packet_len(w, w.len() as int, at);
    assert(packet_len(p + w, (p + w).len() as int, p.len() + at) == n);
    if n > 0 {
        lemma_waits_behind(p, w, at + n);
        assert((p + w)[p.len() + at] == w[at]);
        if is_wait(w, at, n) {
            assert(address_at(p + w, p.len() + at + 1) == address_at(w, at + 1));
        }
    }
}

proof fn lemma_waits_of_packets(p: Seq<u32>, w: Seq<u32>, at: int)
    requires
        0 <= at <= p.len(),
        whole_packets(p, at, p.len() as int),
    ensures
        wait_addresses(p + w, at) == wait_addresses(p, at) + wait_addresses(w, 0),
    decreases p.len() - at,
{
    let rest = wait_addresses(w, 0);
    if at == p.len() {
        lemma_waits_behind(p, w, 0);
        assert(Seq::<u64>::empty() + rest =~= rest);
    } else {
        let n = packet_len(p, p.len() as int, at);
        lemma_packet_len(p, p.len() as int, at);
        assert((p + w)[at] == p[at]);
        assert(packet_len(p + w, (p + w).len() as int, at) == n);
        lemma_waits_of_packets(p, w, at + n);
        if is_wait(p, at, n) {
            let address = address_at(p, at + 1);
            assert(address_at(p + w, at + 1) == address);
            let behind = wait_addresses(p, at + n);
            assert(seq![address] + (behind + rest) =~= (seq![address] + behind) + rest);
        }
    }
}

/// The awaited addresses of whole packets with more behind them are theirs and
/// then those of what is behind. Behind whole packets, what does not start with a
/// whole packet adds none.
pub proof fn law_waits_concatenate(p: Seq<u32>, w: Seq<u32>)
    requires
        whole_packets(p, 0, p.len() as int),
    ensures
        wait_addresses(p + w, 0) == wait_addresses(p, 0) + wait_addresses(w, 0),
        packet_len(w, w.len() as int, 0) == 0 ==> wait_addresses(p + w, 0) == wait_addresses(p, 0),
{
    lemma_waits_of_packets(p, w, 0);
    assert(wait_addresses(p, 0) + Seq::<u64>::empty() =~= wait_addresses(p, 0));
}

/// Nothing awaits the null address.
pub proof fn law_waits_are_not_null(words: Seq<u32>, at: int)
    ensures
        forall|i: int|
            0 <= i < wait_addresses(words, at).len() ==> #[trigger] wait_addresses(words, at)[i] != 0,
    decreases words.len() - at,
{
    let n = packet_len(words, words.len() as int, at);
    lemma_packet_len(words, words.len() as int, at);
    if n > 0 {
        law_waits_are_not_null(words, at + n);
        let rest = wait_addresses(words, at + n);
        assert forall|i: int| 0 <= i < wait_addresses(words, at).len() implies #[trigger] wait_addresses(
            words,
            at,
        )[i] != 0 by {
            if wait_addresses(words, at) != rest && i > 0 {
                assert(wait_addresses(words, at)[i] == rest[i - 1]);
            }
        }
    }
}

} // verus!
