//! What a stream does to the machine when it runs: which bytes of memory its
//! writes, fences, copies and fills change, and what it leaves of its signals.
use vstd::prelude::*;
use crate::agc::fields::{dword, joined, lemma_or_joins, lemma_words_at, qword};
use crate::agc::segment::segment_behind;
use crate::agc::submit::{
    apply_copies, apply_fills, apply_side_effect, apply_side_effects, apply_timestamps, apply_writes, decode_step, drain_step,
    fill_bytes, next_entry, reading, run_stream, signal_all, submit_list_start, submit_start,
    unwrap_descriptor, Decoded, MemoryFill, OrderedGpuSideEffect, StreamView, Submit, SubmitList,
};
use crate::bytes::{
    lemma_auto_spec_u32_to_from_le_bytes, lemma_auto_spec_u64_to_from_le_bytes,
    spec_u32_to_le_bytes, spec_u64_to_le_bytes,
};
use crate::context::{arg, GpuQueue, Machine};
use crate::events::Events;
use crate::mem::{
    law_put_keeps_mapping, law_read_back, law_read_back_u64, load, load_u32, load_u64, load_words,
    mapped, put, put_u32, put_u64, Mem,
};

verus! {

/// `after` differs from `before` in the `n` bytes at `a` at most.
pub open spec fn changed_only(before: Mem, after: Mem, a: int, n: int) -> bool {
    &&& after.dom() == before.dom()
    &&& forall|x: int|
        before.dom().contains(x) && !(a <= x < a + n) ==> #[trigger] after[x] == before[x]
}

/// A write leaves every byte outside its range as it was.
pub(crate) proof fn lemma_put_changes_only(m: Mem, a: int, b: Seq<u8>)
    ensures
        changed_only(m, put(m, a, b).0, a, b.len() as int),
{
    law_put_keeps_mapping(m, a, b);
}

/// `after` holds what `before` held in the `n` bytes at `x`.
pub open spec fn kept(before: Mem, after: Mem, x: int, n: int) -> bool {
    &&& after.dom() == before.dom()
    &&& forall|y: int|
        x <= y < x + n && before.dom().contains(y) ==> #[trigger] after[y] == before[y]
}

/// `n` bytes at `a` and `k` bytes at `b` have no byte in common.
pub open spec fn apart(a: int, n: int, b: int, k: int) -> bool {
    a + n <= b || b + k <= a
}

/// What was kept reads as before.
pub(crate) proof fn lemma_kept_reads(before: Mem, after: Mem, x: int, n: int, y: int, k: nat)
    requires
        kept(before, after, x, n),
        x <= y,
        y + k <= x + n,
    ensures
        load(after, y, k) == load(before, y, k),
        load_u32(after, y) == load_u32(before, y) || k != 4,
        load_u64(after, y) == load_u64(before, y) || k != 8,
{
    assert(mapped(after, y, k) == mapped(before, y, k));
    if mapped(before, y, k) {
        assert forall|i: int| 0 <= i < k implies after[y + i] == #[trigger] before[y + i] by {
            assert(before.dom().contains(y + i));
        }
        assert(load(after, y, k)->0 =~= load(before, y, k)->0);
    }
}

/// What is apart from all that changed was kept.
pub(crate) proof fn lemma_rest_is_kept(before: Mem, after: Mem, a: int, n: int, x: int, k: int)
    requires
        changed_only(before, after, a, n),
        apart(a, n, x, k),
    ensures
        kept(before, after, x, k),
{
}

/// A write keeps what it is apart from.
pub(crate) proof fn lemma_put_keeps(m: Mem, a: int, b: Seq<u8>, x: int, n: int)
    requires
        apart(a, b.len() as int, x, n),
    ensures
        kept(m, put(m, a, b).0, x, n),
{
    law_put_keeps_mapping(m, a, b);
}

/// A 32-bit write keeps what it is apart from.
pub(crate) proof fn lemma_put_u32_keeps_rest(m: Mem, a: int, v: u32, x: int, n: int)
    requires
        apart(a, 4, x, n),
    ensures
        kept(m, put_u32(m, a, v).0, x, n),
{
    lemma_auto_spec_u32_to_from_le_bytes();
    lemma_put_keeps(m, a, spec_u32_to_le_bytes(v), x, n);
}

/// A 64-bit write keeps what it is apart from.
pub(crate) proof fn lemma_put_u64_keeps_rest(m: Mem, a: int, v: u64, x: int, n: int)
    requires
        apart(a, 8, x, n),
    ensures
        kept(m, put_u64(m, a, v).0, x, n),
{
    lemma_auto_spec_u64_to_from_le_bytes();
    lemma_put_keeps(m, a, spec_u64_to_le_bytes(v), x, n);
}

/// A stream that was refused: it is an invalid argument, and neither the memory
/// nor anything behind it has changed.
pub open spec fn refused(m: Machine, r: (Machine, u64)) -> bool {
    &&& r.1 == 0x8002_0016
    &&& r.0.mem == m.mem
    &&& r.0.gpu == m.gpu
    &&& r.0.events == m.events
}

/// A stream whose one effect on memory is a write of bytes: it runs if its range
/// is mapped, the bytes stand at its address then, and no other byte changes.
pub proof fn law_write_lands(
    m: Machine,
    s: StreamView,
    d: Decoded,
    unified: bool,
    readings: Seq<u64>,
)
    requires
        d.writes.len() == 1,
        d.timestamps.len() == 0,
        d.copies.len() == 0,
        d.fills.len() == 0,
    ensures
        ({
            let (after, code) = run_stream(m, s, d, false, unified, readings);
            let (address, bytes) = d.writes[0];
            &&& code == 0 <==> mapped(m.mem, address as int, bytes.len())
            &&& code == 0 ==> load(after.mem, address as int, bytes.len()) == Some(bytes)
            &&& code == 0 ==> changed_only(m.mem, after.mem, address as int, bytes.len() as int)
            &&& code != 0 ==> refused(m, (after, code))
        }),
{
    let (address, bytes) = d.writes[0];
    reveal_with_fuel(apply_writes, 2);
    reveal_with_fuel(apply_copies, 2);
    reveal_with_fuel(apply_fills, 2);
    reveal_with_fuel(apply_timestamps, 2);
    lemma_put_changes_only(m.mem, address as int, bytes);
    law_put_keeps_mapping(m.mem, address as int, bytes);
    if mapped(m.mem, address as int, bytes.len()) {
        law_read_back(m.mem, address as int, bytes);
    }
}

/// A stream whose one effect on memory is a copy: it runs if both ranges are
/// mapped; then the destination holds what the source held before, and no other
/// byte changes.
pub proof fn law_copy_lands(
    m: Machine,
    s: StreamView,
    d: Decoded,
    unified: bool,
    readings: Seq<u64>,
)
    requires
        d.copies.len() == 1,
        d.writes.len() == 0,
        d.timestamps.len() == 0,
        d.fills.len() == 0,
    ensures
        ({
            let (after, code) = run_stream(m, s, d, false, unified, readings);
            let c = d.copies[0];
            let n = c.num_bytes as nat;
            &&& code == 0 <==> mapped(m.mem, c.src as int, n) && mapped(m.mem, c.dst as int, n)
            &&& code == 0 ==> {
                &&& load(m.mem, c.src as int, n) is Some
                &&& load(after.mem, c.dst as int, n) == load(m.mem, c.src as int, n)
                &&& changed_only(m.mem, after.mem, c.dst as int, n as int)
            }
            &&& code != 0 ==> refused(m, (after, code))
        }),
{
    let c = d.copies[0];
    reveal_with_fuel(apply_writes, 2);
    reveal_with_fuel(apply_copies, 2);
    reveal_with_fuel(apply_fills, 2);
    reveal_with_fuel(apply_timestamps, 2);
    if let Some(b) = load(m.mem, c.src as int, c.num_bytes as nat) {
        assert(b.len() == c.num_bytes);
        lemma_put_changes_only(m.mem, c.dst as int, b);
        law_put_keeps_mapping(m.mem, c.dst as int, b);
        if mapped(m.mem, c.dst as int, b.len()) {
            law_read_back(m.mem, c.dst as int, b);
        }
    }
}

/// Copies run in order, after everything that was written and stamped before
/// them: the last one moves what the same stream without it leaves at the source.
pub proof fn law_last_copy_lands(
    m: Machine,
    s: StreamView,
    d: Decoded,
    unified: bool,
    readings: Seq<u64>,
)
    requires
        d.copies.len() > 0,
        d.fills.len() == 0,
        run_stream(m, s, d, false, unified, readings).1 == 0,
    ensures
        ({
            let c = d.copies.last();
            let n = c.num_bytes as nat;
            let rest = Decoded { copies: d.copies.drop_last(), ..d };
            let (before, code) = run_stream(m, s, rest, false, unified, readings);
            let after = run_stream(m, s, d, false, unified, readings).0;
            &&& code == 0
            &&& load(before.mem, c.src as int, n) is Some
            &&& load(after.mem, c.dst as int, n) == load(before.mem, c.src as int, n)
            &&& changed_only(before.mem, after.mem, c.dst as int, n as int)
        }),
{
    let c = d.copies.last();
    let rest = Decoded { copies: d.copies.drop_last(), ..d };
    let before = run_stream(m, s, rest, false, unified, readings).0;
    let b = load(before.mem, c.src as int, c.num_bytes as nat)->0;
    lemma_put_changes_only(before.mem, c.dst as int, b);
    law_read_back(before.mem, c.dst as int, b);
}

/// Writes run in order: the last one stands over what the same stream without it
/// leaves.
pub proof fn law_last_write_lands(
    m: Machine,
    s: StreamView,
    d: Decoded,
    unified: bool,
    readings: Seq<u64>,
)
    requires
        d.writes.len() > 0,
        d.timestamps.len() == 0,
        d.copies.len() == 0,
        d.fills.len() == 0,
        run_stream(m, s, d, false, unified, readings).1 == 0,
    ensures
        ({
            let (address, bytes) = d.writes.last();
            let rest = Decoded { writes: d.writes.drop_last(), ..d };
            let (before, code) = run_stream(m, s, rest, false, unified, readings);
            let after = run_stream(m, s, d, false, unified, readings).0;
            &&& code == 0
            &&& load(after.mem, address as int, bytes.len()) == Some(bytes)
            &&& changed_only(before.mem, after.mem, address as int, bytes.len() as int)
        }),
{
    let (address, bytes) = d.writes.last();
    let rest = Decoded { writes: d.writes.drop_last(), ..d };
    let before = run_stream(m, s, rest, false, unified, readings).0;
    lemma_put_changes_only(before.mem, address as int, bytes);
    law_read_back(before.mem, address as int, bytes);
}

/// The bytes of a fill: whole DWORDs of its value.
proof fn lemma_fill_lands(m: Mem, f: MemoryFill)
    requires
        put(m, f.address as int, fill_bytes(f)).1,
    ensures
        ({
            let after = put(m, f.address as int, fill_bytes(f)).0;
            &&& forall|i: int|
                0 <= i < f.num_bytes as int / 4 ==> #[trigger] load_u32(after, f.address + 4 * i)
                    == Some(f.value)
            &&& changed_only(m, after, f.address as int, f.num_bytes as int / 4 * 4)
        }),
{
    let b = fill_bytes(f);
    let after = put(m, f.address as int, b).0;
    lemma_put_changes_only(m, f.address as int, b);
    lemma_auto_spec_u32_to_from_le_bytes();
    law_put_keeps_mapping(m, f.address as int, b);
    assert forall|i: int| 0 <= i < f.num_bytes as int / 4 implies #[trigger] load_u32(
        after,
        f.address + 4 * i,
    ) == Some(f.value) by {
        let at = f.address + 4 * i;
        assert forall|x: int| at <= x < at + 4 implies #[trigger] after.dom().contains(x) by {
            assert(m.dom().contains(x));
        }
        assert forall|k: int| 0 <= k < 4 implies #[trigger] after[at + k] == spec_u32_to_le_bytes(
            f.value,
        )[k] by {
            assert(m.dom().contains(at + k));
            assert((4 * i + k) % 4 == k);
            assert(b[4 * i + k] == spec_u32_to_le_bytes(f.value)[(4 * i + k) % 4]);
        }
        assert(load(after, at, 4)->0 =~= spec_u32_to_le_bytes(f.value));
    }
}

/// Fills run in order, after everything else: the last one leaves its value in
/// every whole DWORD of its range, over what the same stream without it leaves,
/// and no other byte changes.
pub proof fn law_last_fill_lands(
    m: Machine,
    s: StreamView,
    d: Decoded,
    unified: bool,
    readings: Seq<u64>,
)
    requires
        d.fills.len() > 0,
        run_stream(m, s, d, false, unified, readings).1 == 0,
    ensures
        ({
            let f = d.fills.last();
            let rest = Decoded { fills: d.fills.drop_last(), ..d };
            let (before, code) = run_stream(m, s, rest, false, unified, readings);
            let after = run_stream(m, s, d, false, unified, readings).0;
            &&& code == 0
            &&& forall|i: int|
                0 <= i < f.num_bytes as int / 4 ==> #[trigger] load_u32(
                    after.mem,
                    f.address + 4 * i,
                ) == Some(f.value)
            &&& changed_only(before.mem, after.mem, f.address as int, f.num_bytes as int / 4 * 4)
        }),
{
    let rest = Decoded { fills: d.fills.drop_last(), ..d };
    let before = run_stream(m, s, rest, false, unified, readings).0;
    lemma_fill_lands(before.mem, d.fills.last());
}

proof fn lemma_earlier_fences(
    m: Mem,
    last: u64,
    fences: Seq<u64>,
    unified: bool,
    readings: Seq<u64>,
    n: nat,
)
    requires
        n < fences.len(),
    ensures
        apply_timestamps(m, last, fences, unified, readings, n) == apply_timestamps(
            m,
            last,
            fences.drop_last(),
            unified,
            readings,
            n,
        ),
    decreases n,
{
    if n > 0 {
        lemma_earlier_fences(m, last, fences, unified, readings, (n - 1) as nat);
    }
}

/// A timestamp fence takes its own reading of the clock. With a clock that all
/// share, the reading itself is stored; otherwise the session's clock moves on to
/// it, by at least one, and that is stored. No other byte changes.
pub proof fn law_last_fence_lands(
    m: Machine,
    s: StreamView,
    d: Decoded,
    unified: bool,
    readings: Seq<u64>,
)
    requires
        d.timestamps.len() > 0,
        d.timestamps.len() <= readings.len(),
        d.copies.len() == 0,
        d.fills.len() == 0,
        run_stream(m, s, d, false, unified, readings).1 == 0,
    ensures
        ({
            let fence = d.timestamps.last();
            let now = readings[d.timestamps.len() - 1];
            let rest = Decoded { timestamps: d.timestamps.drop_last(), ..d };
            let (before, code) = run_stream(m, s, rest, false, unified, readings);
            let after = run_stream(m, s, d, false, unified, readings).0;
            let previous = before.agc.gpu_timestamp;
            &&& code == 0
            &&& unified ==> load_u64(after.mem, fence as int) == Some(now)
                && after.agc.gpu_timestamp == previous
            &&& !unified ==> load_u64(after.mem, fence as int) == Some(after.agc.gpu_timestamp)
            &&& !unified && now > previous ==> after.agc.gpu_timestamp == now
            &&& !unified && now <= previous < u64::MAX ==> after.agc.gpu_timestamp == previous + 1
            &&& !unified && previous == u64::MAX ==> after.agc.gpu_timestamp == u64::MAX
            &&& changed_only(before.mem, after.mem, fence as int, 8)
        }),
{
    let n = d.timestamps.len();
    let fence = d.timestamps.last();
    let now = readings[n - 1];
    let rest = Decoded { timestamps: d.timestamps.drop_last(), ..d };
    let before = run_stream(m, s, rest, false, unified, readings).0;
    let after = run_stream(m, s, d, false, unified, readings).0;
    reveal_with_fuel(apply_copies, 2);
    reveal_with_fuel(apply_fills, 2);
    let written = apply_writes(m.mem, d.writes).0;
    lemma_earlier_fences(
        written,
        m.agc.gpu_timestamp,
        d.timestamps,
        unified,
        readings,
        (n - 1) as nat,
    );
    assert(reading(readings, n - 1) == now);
    lemma_auto_spec_u64_to_from_le_bytes();
    let value = if unified {
        now
    } else {
        after.agc.gpu_timestamp
    };
    law_read_back_u64(before.mem, fence as int, value);
    lemma_put_changes_only(before.mem, fence as int, spec_u64_to_le_bytes(value));
}

/// What a stream that has run leaves behind beside memory: its flips in order,
/// itself among the submissions, and its packets in the counts.
pub proof fn law_stream_is_recorded(
    m: Machine,
    s: StreamView,
    d: Decoded,
    unified: bool,
    readings: Seq<u64>,
)
    requires
        run_stream(m, s, d, false, unified, readings).1 == 0,
        s.words.len() <= u32::MAX,
    ensures
        ({
            let after = run_stream(m, s, d, false, unified, readings).0;
            &&& after.gpu.flips == m.gpu.flips + d.flips
            &&& after.gpu.submissions == m.gpu.submissions.push((s.words, s.queue))
            &&& after.gpu.mapped == m.gpu.mapped && after.gpu.waits == m.gpu.waits
            &&& after.agc.last_dcb_address == s.address
            &&& after.agc.last_dcb_dwords == s.words.len()
            &&& after.agc.submission_count == (m.agc.submission_count + 1) % 0x1_0000_0000_0000_0000
            &&& after.agc.draw_packet_count == (m.agc.draw_packet_count + d.draws)
                % 0x1_0000_0000_0000_0000
            &&& after.agc.dispatch_packet_count == (m.agc.dispatch_packet_count + d.dispatches)
                % 0x1_0000_0000_0000_0000
            &&& d.flips.len() <= u32::MAX ==> after.agc.flip_packet_count == (
            m.agc.flip_packet_count + d.flips.len()) % 0x1_0000_0000_0000_0000
            &&& s.queue == GpuQueue::Graphics && s.address != 0 && s.words.len() != 0
                ==> after.agc.segment == segment_behind(s.address, s.words.len() as u32)
            &&& s.queue != GpuQueue::Graphics ==> after.agc.segment == m.agc.segment
            &&& after.agc.default_owner == m.agc.default_owner
            &&& after.agc.register_defaults_addr == m.agc.register_defaults_addr
            &&& after.owners == m.owners && after.resources == m.resources
            &&& after.ampr == m.ampr && after.fibers == m.fibers && after.equeues == m.equeues
        }),
{
}

/// The events of a stream: each id fires the registrations under it, in whatever
/// queue, once for every time that it occurs, with the id as their data.
pub proof fn law_stream_fires_its_events(
    m: Machine,
    s: StreamView,
    d: Decoded,
    unified: bool,
    readings: Seq<u64>,
    k: (u64, u64),
)
    requires
        run_stream(m, s, d, false, unified, readings).1 == 0,
        d.interrupts.len() == 0,
        m.events.dom().contains(k),
    ensures
        ({
            let after = run_stream(m, s, d, false, unified, readings).0;
            let e = m.events[k];
            let f = after.events[k];
            &&& after.events.dom() == m.events.dom()
            &&& f.udata == e.udata && f.filter == e.filter
            &&& (forall|i: int| 0 <= i < d.events.len() ==> #[trigger] d.events[i] != k.1) ==> f
                == e
            &&& (exists|i: int| 0 <= i < d.events.len() && #[trigger] d.events[i] == k.1) ==> {
                &&& f.triggered
                &&& f.data == k.1
                &&& f.fflags > e.fflags || f.fflags == u32::MAX
            }
            &&& d.events.len() == 1 && d.events[0] == k.1 && e.fflags < u32::MAX ==> f.fflags
                == e.fflags + 1
        }),
{
    lemma_signals(m.events, d.events, k);
    reveal_with_fuel(signal_all, 2);
}

proof fn lemma_signals(e: Events, ids: Seq<u32>, k: (u64, u64))
    requires
        e.dom().contains(k),
    ensures
        ({
            let after = signal_all(e, ids);
            let f = after[k];
            &&& after.dom() == e.dom()
            &&& f.udata == e[k].udata && f.filter == e[k].filter && f.fflags >= e[k].fflags
            &&& (forall|i: int| 0 <= i < ids.len() ==> #[trigger] ids[i] != k.1) ==> f == e[k]
            &&& (exists|i: int| 0 <= i < ids.len() && #[trigger] ids[i] == k.1) ==> {
                &&& f.triggered
                &&& f.data == k.1
                &&& f.fflags > e[k].fflags || f.fflags == u32::MAX
            }
        }),
    decreases ids.len(),
{
    if ids.len() > 0 {
        let init = ids.drop_last();
        lemma_signals(e, init, k);
        assert(signal_all(e, ids).dom() =~= e.dom());
        if exists|i: int| 0 <= i < ids.len() && #[trigger] ids[i] == k.1 {
            let i = choose|i: int| 0 <= i < ids.len() && #[trigger] ids[i] == k.1;
            if i < ids.len() - 1 {
                assert(init[i] == k.1);
            }
        } else {
            assert forall|i: int| 0 <= i < init.len() implies #[trigger] init[i] != k.1 by {
                assert(init[i] == ids[i]);
            }
        }
    }
}

/// The end-of-pipe interrupts of a stream: every registration with the graphics
/// filter (-14) fires once for each, with the last one's context as its data; the
/// others stay as they are.
pub proof fn law_stream_interrupts(
    m: Machine,
    s: StreamView,
    d: Decoded,
    unified: bool,
    readings: Seq<u64>,
    k: (u64, u64),
)
    requires
        run_stream(m, s, d, false, unified, readings).1 == 0,
        d.events.len() == 0,
        0 < d.interrupts.len() <= u32::MAX,
        m.events.dom().contains(k),
    ensures
        ({
            let f = run_stream(m, s, d, false, unified, readings).0.events[k];
            let e = m.events[k];
            &&& e.filter != -14 ==> f == e
            &&& e.filter == -14 ==> {
                &&& f.triggered
                &&& f.data == d.interrupts.last()
                &&& f.udata == e.udata && f.filter == -14
                &&& e.fflags + d.interrupts.len() <= u32::MAX ==> f.fflags == e.fflags
                    + d.interrupts.len()
                &&& e.fflags + d.interrupts.len() > u32::MAX ==> f.fflags == u32::MAX
            }
        }),
{
    reveal_with_fuel(signal_all, 2);
}

/// A side effect that a drain reports: an event fires the registrations under its
/// id, an interrupt those with the graphics filter, and a flip is passed on; none
/// of them touches memory.
pub proof fn law_side_effects(m: Machine, e: OrderedGpuSideEffect, k: (u64, u64))
    requires
        m.events.dom().contains(k),
    ensures
        ({
            let after = apply_side_effect(m, e);
            let was = m.events[k];
            let is = after.events[k];
            &&& after.mem == m.mem && after.agc == m.agc
            &&& match e {
                OrderedGpuSideEffect::EventWrite { event_id } => {
                    &&& after.gpu == m.gpu
                    &&& k.1 != event_id ==> is == was
                    &&& k.1 == event_id ==> is.triggered && is.data == event_id
                    &&& k.1 == event_id && was.fflags < u32::MAX ==> is.fflags == was.fflags + 1
                },
                OrderedGpuSideEffect::EopInterrupt { context_id } => {
                    &&& after.gpu == m.gpu
                    &&& was.filter != -14 ==> is == was
                    &&& was.filter == -14 ==> is.triggered && is.data == context_id
                    &&& was.filter == -14 && was.fflags < u32::MAX ==> is.fflags == was.fflags + 1
                },
                OrderedGpuSideEffect::Flip { flip } => {
                    &&& after.events == m.events
                    &&& after.gpu.flips == m.gpu.flips.push(flip)
                    &&& after.gpu.submissions == m.gpu.submissions
                },
            }
        }),
{
    match e {
        OrderedGpuSideEffect::Flip { flip } => {
            assert(m.gpu.flips + seq![flip] =~= m.gpu.flips.push(flip));
        },
        _ => {},
    }
}

/// A submission packet: its buffer's 64-bit address at 0, its length in DWORDs at
/// 8. A null or unreadable packet is an invalid argument.
pub proof fn law_submission_packet(m: Mem, packet: u64, queue: GpuQueue)
    ensures
        packet == 0 || !mapped(m, packet as int, 16) ==> submit_start(m, packet, queue) == (
        Submit::Done { code: 0x8002_0016 }),
        packet != 0 && mapped(m, packet as int, 16) ==> {
            &&& submit_start(m, packet, queue) is Drain
            &&& load_u64(m, packet as int) == Some(submit_start(m, packet, queue)->Drain_address)
            &&& load_u32(m, packet + 8) == Some(submit_start(m, packet, queue)->Drain_dwords)
            &&& submit_start(m, packet, queue)->Drain_queue == queue
        },
{
    if packet != 0 && mapped(m, packet as int, 16) {
        assert forall|x: int| packet <= x < packet + 8 implies #[trigger] m.dom().contains(x) by {}
        assert forall|x: int| packet + 8 <= x < packet + 12 implies #[trigger] m.dom().contains(
            x,
        ) by {}
        assert(mapped(m, packet as int, 8) && mapped(m, packet + 8, 4));
    }
}

/// The first buffer of a list that is neither null nor empty: every buffer before
/// it is, and none is taken behind the end of the list.
pub proof fn law_next_buffer(m: Mem, list: SubmitList)
    requires
        list.index <= list.count <= 4096,
    ensures
        match next_entry(m, list) {
            Some((index, address, dwords)) => {
                &&& list.index < index <= list.count
                &&& address != 0 && dwords != 0
                &&& load_u64(m, list.addresses + 8 * (index - 1)) == Some(address)
                &&& load_u32(m, list.sizes + 4 * (index - 1)) == Some(dwords)
                &&& forall|i: int|
                    list.index <= i < index - 1 ==> #[trigger] null_entry(m, list, i)
            },
            None => forall|i: int|
                list.index <= i < list.count ==> #[trigger] null_entry(m, list, i),
        },
    decreases list.count - list.index,
{
    if list.index < list.count {
        let next = SubmitList { index: (list.index + 1) as u64, ..list };
        law_next_buffer(m, next);
        if null_entry(m, list, list.index as int) {
            assert forall|i: int| list.index <= i < list.count && null_entry(m, next, i) implies
                #[trigger] null_entry(m, list, i) by {}
            match next_entry(m, next) {
                Some((index, _, _)) => {
                    assert forall|i: int| list.index <= i < index - 1 implies #[trigger] null_entry(
                        m,
                        list,
                        i,
                    ) by {
                        assert(i == list.index || null_entry(m, next, i));
                    }
                },
                None => {
                    assert forall|i: int| list.index <= i < list.count implies
                        #[trigger] null_entry(m, list, i) by {
                        assert(i == list.index || null_entry(m, next, i));
                    }
                },
            }
        }
    }
}

/// Entry `i` of a list stands for nothing: its address (64 bits, at 8 bytes each)
/// or its length (32 bits, at 4 bytes each) is zero or unreadable.
pub open spec fn null_entry(m: Mem, list: SubmitList, i: int) -> bool {
    ||| load_u64(m, list.addresses + 8 * i) is None
    ||| load_u64(m, list.addresses + 8 * i) == Some(0u64)
    ||| load_u32(m, list.sizes + 4 * i) is None
    ||| load_u32(m, list.sizes + 4 * i) == Some(0u32)
}

/// A list of submissions: null tables, an empty list, and one of more than 4096
/// buffers are invalid arguments; otherwise it starts at its first buffer.
pub proof fn law_submission_list(m: Mem, a: Seq<u64>, queue: GpuQueue)
    ensures
        ({
            let s = submit_list_start(m, a, queue);
            let valid = arg(a, 0) != 0 && arg(a, 1) != 0 && 0 < arg(a, 2) <= 4096;
            let list = SubmitList {
                addresses: arg(a, 0),
                sizes: arg(a, 1),
                count: arg(a, 2),
                index: 0,
                queue,
            };
            &&& !valid ==> s == (Submit::Done { code: 0x8002_0016 })
            &&& valid ==> match next_entry(m, list) {
                None => s == (Submit::Done { code: 0 }),
                Some((index, address, dwords)) => s == (Submit::Drain {
                    address,
                    dwords,
                    queue,
                    acb: None,
                    list: Some(SubmitList { index, ..list }),
                }),
            }
        }),
{
}

/// The descriptor of a compute buffer: five DWORDs that hold the buffer's address,
/// its length, a zero and the descriptor's mark stand for that buffer; anything
/// else stands for itself.
pub proof fn law_compute_descriptor(m: Mem, address: u64, dwords: u32)
    ensures
        ({
            let (at, n) = unwrap_descriptor(m, address, dwords);
            let described = dwords >= 5 && mapped(m, address as int, 20) && load_u64(
                m,
                address as int,
            ) != Some(0u64) && load_u32(m, address + 8) != Some(0u32) && load_u32(m, address + 12)
                == Some(0u32) && load_u32(m, address + 16) == Some(0x5533_CCAAu32);
            &&& described ==> Some(at) == load_u64(m, address as int) && Some(n) == load_u32(
                m,
                address + 8,
            )
            &&& !described ==> at == address && n == dwords
        }),
{
    if let Some(w) = load_words(m, address as int, 5) {
        lemma_words_at(m, address, w);
        assert(dword(m, address, 0) == Some(w[0]));
        assert(dword(m, address, 1) == Some(w[1]));
        assert(dword(m, address, 2) == Some(w[2]));
        assert(dword(m, address, 3) == Some(w[3]));
        assert(dword(m, address, 4) == Some(w[4]));
        assert(qword(m, address, 0) == Some(
            joined(w[0], w[1]),
        ));
        lemma_or_joins(w[0], w[1]);
    } else {
        assert(!mapped(m, address as int, 20));
    }
}

/// A buffer that is drained is read whole, and handed on as it stands in memory; a
/// null address, an empty buffer, and one of more than a million DWORDs are
/// invalid arguments.
pub proof fn law_drain_reads_the_buffer(
    m: Machine,
    address: u64,
    dwords: u32,
    effects: Seq<OrderedGpuSideEffect>,
)
    ensures
        ({
            let s = Submit::Drain {
                address,
                dwords,
                queue: GpuQueue::Graphics,
                acb: None,
                list: None,
            };
            let next = drain_step(m, s, effects).1;
            let valid = address != 0 && 0 < dwords <= 1_000_000 && mapped(
                drain_step(m, s, effects).0.mem,
                address as int,
                4 * dwords as nat,
            );
            &&& !valid ==> next == (Submit::Done { code: 0x8002_0016 })
            &&& valid ==> {
                &&& next is Decode
                &&& next->Decode_stream.address == address
                &&& next->Decode_stream.words.len() == dwords
                &&& forall|i: int|
                    0 <= i < dwords ==> Some(#[trigger] next->Decode_stream.words[i]) == load_u32(
                        drain_step(m, s, effects).0.mem,
                        address + 4 * i,
                    )
            }
        }),
{
    let s = Submit::Drain { address, dwords, queue: GpuQueue::Graphics, acb: None, list: None };
    let (after, next) = drain_step(m, s, effects);
    if let Some(words) = load_words(after.mem, address as int, dwords as nat) {
        lemma_words_at(after.mem, address, words);
        assert forall|i: int| 0 <= i < dwords implies Some(#[trigger] words[i]) == load_u32(
            after.mem,
            address + 4 * i,
        ) by {
            assert(dword(after.mem, address, i) == Some(words[i]));
        }
    }
}

/// What follows a stream: one that stood alone ends its submission with its own
/// result; one of a list is followed by the list's next buffer, whatever its own
/// result, and a list that is through ends well.
pub proof fn law_streams_follow_each_other(
    m: Machine,
    stream: StreamView,
    list: Option<SubmitList>,
    d: Option<Decoded>,
    defer: bool,
    unified: bool,
    readings: Seq<u64>,
)
    ensures
        ({
            let s = Submit::Decode { stream, acb: None, list };
            let (after, next) = decode_step(m, s, d, defer, unified, readings);
            let code: u64 = match d {
                None => 0x8002_0016,
                Some(d) => run_stream(m, stream, d, defer, unified, readings).1,
            };
            &&& d is None ==> after == m
            &&& d is Some ==> after == run_stream(m, stream, d->0, defer, unified, readings).0
            &&& list is None ==> next == (Submit::Done { code })
            &&& list is Some ==> match next_entry(after.mem, list->0) {
                None => next == (Submit::Done { code: 0 }),
                Some((index, address, dwords)) => next == (Submit::Drain {
                    address,
                    dwords,
                    queue: list->0.queue,
                    acb: None,
                    list: Some(SubmitList { index, ..list->0 }),
                }),
            }
        }),
{
}

/// A compute buffer is read from where its descriptor leads, if it is one; without
/// pending graphics it is handed on as it stands in memory.
pub proof fn law_compute_buffer_is_read(
    m: Machine,
    address: u64,
    dwords: u32,
    effects: Seq<OrderedGpuSideEffect>,
)
    requires
        m.agc.segment.start == 0,
        effects.len() == 0,
    ensures
        ({
            let s = Submit::Drain {
                address,
                dwords,
                queue: GpuQueue::AsyncCompute,
                acb: None,
                list: None,
            };
            let (after, next) = drain_step(m, s, effects);
            let (at, n) = unwrap_descriptor(m.mem, address, dwords);
            let valid = address != 0 && 0 < dwords <= 1_000_000 && 0 < n <= 1_000_000 && mapped(
                m.mem,
                at as int,
                4 * n as nat,
            );
            &&& after.mem == m.mem
            &&& !valid ==> next == (Submit::Done { code: 0x8002_0016 })
            &&& valid ==> {
                &&& next is Decode
                &&& next->Decode_stream.address == at
                &&& next->Decode_stream.queue == GpuQueue::AsyncCompute
                &&& next->Decode_stream.words.len() == n
                &&& forall|i: int|
                    0 <= i < n ==> Some(#[trigger] next->Decode_stream.words[i]) == load_u32(
                        m.mem,
                        at + 4 * i,
                    )
            }
        }),
{
    reveal_with_fuel(apply_side_effects, 2);
    let (at, n) = unwrap_descriptor(m.mem, address, dwords);
    if let Some(words) = load_words(m.mem, at as int, n as nat) {
        lemma_words_at(m.mem, at, words);
        assert forall|i: int| 0 <= i < n implies Some(#[trigger] words[i]) == load_u32(
            m.mem,
            at + 4 * i,
        ) by {
            assert(dword(m.mem, at, i) == Some(words[i]));
        }
    }
}

/// Side effects that a drain reports happen in their order.
pub proof fn law_side_effects_in_order(
    m: Machine,
    first: Seq<OrderedGpuSideEffect>,
    e: OrderedGpuSideEffect,
)
    ensures
        apply_side_effects(m, first.push(e)) == apply_side_effect(apply_side_effects(m, first), e),
        apply_side_effects(m, Seq::empty()) == m,
{
    assert(first.push(e).drop_last() =~= first);
    assert(first.push(e).last() == e);
}

/// A graphics buffer that is drained carries along what comes behind it, the compute
/// stream that waits for it and the list that it is part of; one that cannot be read is
/// skipped, and the compute stream goes ahead without it.
pub proof fn law_drain_carries_on(
    m: Machine,
    address: u64,
    dwords: u32,
    acb: StreamView,
    list: Option<SubmitList>,
    effects: Seq<OrderedGpuSideEffect>,
)
    ensures
        ({
            let s = Submit::Drain {
                address,
                dwords,
                queue: GpuQueue::Graphics,
                acb: Some(acb),
                list,
            };
            let (after, next) = drain_step(m, s, effects);
            let valid = address != 0 && 0 < dwords <= 1_000_000 && mapped(
                after.mem,
                address as int,
                4 * dwords as nat,
            );
            &&& next is Decode
            &&& next->Decode_list == list
            &&& valid ==> {
                &&& next->Decode_acb == Some(acb)
                &&& next->Decode_stream.address == address
                &&& next->Decode_stream.queue == GpuQueue::Graphics
                &&& Some(next->Decode_stream.words) == load_words(
                    after.mem,
                    address as int,
                    dwords as nat,
                )
            }
            &&& !valid ==> {
                &&& next->Decode_acb is None
                &&& next->Decode_stream == acb
                &&& after.agc.segment.start == 0 && after.agc.segment.end == 0
            }
        }),
{
}

/// Behind graphics that were flushed for a compute stream comes that stream, whatever
/// became of the graphics; the window of pending graphics is closed if they failed, and
/// is what they left of it otherwise.
pub proof fn law_compute_follows_its_flush(
    m: Machine,
    stream: StreamView,
    acb: StreamView,
    list: Option<SubmitList>,
    d: Decoded,
    defer: bool,
    unified: bool,
    readings: Seq<u64>,
)
    ensures
        ({
            let s = Submit::Decode { stream, acb: Some(acb), list };
            let (after, next) = decode_step(m, s, Some(d), defer, unified, readings);
            let (ran, code) = run_stream(m, stream, d, defer, unified, readings);
            &&& next == (Submit::Decode { stream: acb, acb: None, list })
            &&& after.mem == ran.mem && after.gpu == ran.gpu
            &&& code == 0 ==> after.agc.segment == ran.agc.segment
            &&& code != 0 ==> after.agc.segment.start == 0 && after.agc.segment.end == 0
        }),
{
}

} // verus!
