//! Submitting command streams.
//!
//! A submission alternates library decisions with work of the host: collecting
//! what the GPU has executed since, and decoding a stream. [`SubmitState`] says
//! what is needed next; [`drained`] and [`decoded`] take the host's answers.
use vstd::prelude::*;
use crate::bytes::{spec_u32_to_le_bytes, u32_to_le_bytes};
use crate::agc::segment::{
    flush_plan, no_segment, plan_flush, segment_behind,
    track_pending_graphics_segment_after_submit, with_segment, MAX_STREAM_DWORDS,
};
use crate::context::{
    arg, get_arg, AgcPendingGraphicsSegment, AgcState, Flip, GpuLog, GpuQueue, GpuSubmission,
    HleContext, Machine, OK, SCE_ERROR_INVALID_ARGUMENT,
};
use crate::events::{signal_eop, signal_event, Events};
use crate::mem::{
    load, load_u32, load_u64, load_words, mapped, put, put_u64, u32_or_zero, u64_or_zero, Mem,
};

verus! {

/// The last DWORD of a descriptor that stands for a compute stream.
pub const ACB_DESCRIPTOR_MAGIC: u32 = 0x5533_CCAA;

/// The most buffers of one list submission.
pub const MAX_LIST_BUFFERS: u64 = 4096;

/// Something that the GPU executed while running earlier streams.
#[derive(Clone, Copy)]
pub enum OrderedGpuSideEffect {
    EventWrite { event_id: u32 },
    EopInterrupt { context_id: u32 },
    Flip { flip: Flip },
}

/// Bytes to write.
pub struct MemoryWrite {
    pub address: u64,
    pub data: Vec<u8>,
}

/// Bytes to copy.
#[derive(Clone, Copy)]
pub struct MemoryCopy {
    pub src: u64,
    pub dst: u64,
    pub num_bytes: u32,
}

/// A range to fill with a DWORD.
#[derive(Clone, Copy)]
pub struct MemoryFill {
    pub address: u64,
    pub value: u32,
    pub num_bytes: u32,
}

/// What a stream's packets do, in packet order for each kind.
pub struct DecodedSubmission {
    pub memory_writes: Vec<MemoryWrite>,
    pub timestamp_writes: Vec<u64>,
    pub memory_copies: Vec<MemoryCopy>,
    pub memory_fills: Vec<MemoryFill>,
    pub events: Vec<u32>,
    pub eop_interrupts: Vec<u32>,
    pub flips: Vec<Flip>,
    pub draw_packets: u32,
    pub dispatch_packets: u32,
}

/// The view of [`DecodedSubmission`].
pub struct Decoded {
    pub writes: Seq<(u64, Seq<u8>)>,
    pub timestamps: Seq<u64>,
    pub copies: Seq<MemoryCopy>,
    pub fills: Seq<MemoryFill>,
    pub events: Seq<u32>,
    pub interrupts: Seq<u32>,
    pub flips: Seq<Flip>,
    pub draws: u32,
    pub dispatches: u32,
}

impl View for DecodedSubmission {
    type V = Decoded;

    open spec fn view(&self) -> Decoded {
        Decoded {
            writes: self.memory_writes@.map_values(|w: MemoryWrite| (w.address, w.data@)),
            timestamps: self.timestamp_writes@,
            copies: self.memory_copies@,
            fills: self.memory_fills@,
            events: self.events@,
            interrupts: self.eop_interrupts@,
            flips: self.flips@,
            draws: self.draw_packets,
            dispatches: self.dispatch_packets,
        }
    }
}

/// Readings of the clock that timestamp fences take, one for each fence. A
/// session clock is made strictly increasing here; a unified clock already is.
pub struct GpuClock {
    pub unified: bool,
    pub readings: Vec<u64>,
}

/// The `i`-th reading; a missing one is zero.
pub open spec fn reading(readings: Seq<u64>, i: int) -> u64 {
    if 0 <= i < readings.len() {
        readings[i]
    } else {
        0
    }
}

/// The timestamp after `previous` when the clock reads `now`.
pub open spec fn next_timestamp(now: u64, previous: u64) -> u64 {
    let least = if previous == u64::MAX {
        u64::MAX
    } else {
        (previous + 1) as u64
    };
    if now >= least {
        now
    } else {
        least
    }
}

/// A session's timestamps never repeat and are never zero, until the counter
/// has reached its end.
pub proof fn law_timestamps_increase(now: u64, previous: u64)
    requires
        previous < u64::MAX,
    ensures
        next_timestamp(now, previous) > previous,
        next_timestamp(now, previous) >= now,
        next_timestamp(now, previous) != 0,
{
}

/// The timestamp of the session clock when it reads `now`.
pub fn next_gpu_timestamp(ctx: &mut HleContext, now: u64) -> (r: u64)
    ensures
        r == next_timestamp(now, old(ctx)@.agc.gpu_timestamp),
        final(ctx)@ == (Machine {
            agc: AgcState { gpu_timestamp: r, ..old(ctx)@.agc },
            ..old(ctx)@
        }),
{
    let previous: u64 = ctx.kernel.agc.gpu_timestamp;
    let least: u64 = if previous == u64::MAX {
        u64::MAX
    } else {
        previous + 1
    };
    let next: u64 = if now >= least {
        now
    } else {
        least
    };
    ctx.kernel.agc.gpu_timestamp = next;
    next
}

/// A command stream that was read from guest memory.
pub struct Stream {
    pub address: u64,
    pub words: Vec<u32>,
    pub queue: GpuQueue,
}

/// The view of [`Stream`].
pub struct StreamView {
    pub address: u64,
    pub words: Seq<u32>,
    pub queue: GpuQueue,
}

impl View for Stream {
    type V = StreamView;

    open spec fn view(&self) -> StreamView {
        StreamView { address: self.address, words: self.words@, queue: self.queue }
    }
}

/// The rest of a list submission: arrays of addresses and sizes, and the next
/// index.
#[derive(Clone, Copy)]
pub struct SubmitList {
    pub addresses: u64,
    pub sizes: u64,
    pub count: u64,
    pub index: u64,
    pub queue: GpuQueue,
}

/// What a submission needs next from the host, and what it will do then.
pub enum SubmitState {
    /// Hand over what the GPU has executed since the last time.
    Drain {
        address: u64,
        dwords: u32,
        queue: GpuQueue,
        /// The compute stream that waits for this one.
        acb: Option<Stream>,
        list: Option<SubmitList>,
    },
    /// Decode the stream.
    Decode { stream: Stream, acb: Option<Stream>, list: Option<SubmitList> },
    /// The call returns this code.
    Done { code: u64 },
}

/// The view of [`SubmitState`].
pub enum Submit {
    Drain {
        address: u64,
        dwords: u32,
        queue: GpuQueue,
        acb: Option<StreamView>,
        list: Option<SubmitList>,
    },
    Decode { stream: StreamView, acb: Option<StreamView>, list: Option<SubmitList> },
    Done { code: u64 },
}

/// The view of an optional stream.
pub open spec fn stream_view(s: Option<Stream>) -> Option<StreamView> {
    match s {
        Some(s) => Some(s@),
        None => None,
    }
}

impl View for SubmitState {
    type V = Submit;

    open spec fn view(&self) -> Submit {
        match *self {
            SubmitState::Drain { address, dwords, queue, acb, list } => Submit::Drain {
                address,
                dwords,
                queue,
                acb: stream_view(acb),
                list,
            },
            SubmitState::Decode { stream, acb, list } => Submit::Decode {
                stream: stream@,
                acb: stream_view(acb),
                list,
            },
            SubmitState::Done { code } => Submit::Done { code },
        }
    }
}

/// The machine after the GPU executed an event, an interrupt or a flip.
pub open spec fn apply_side_effect(m: Machine, e: OrderedGpuSideEffect) -> Machine {
    match e {
        OrderedGpuSideEffect::EventWrite { event_id } => Machine {
            events: signal_event(m.events, event_id),
            ..m
        },
        OrderedGpuSideEffect::EopInterrupt { context_id } => Machine {
            events: signal_eop(m.events, 1, context_id),
            ..m
        },
        OrderedGpuSideEffect::Flip { flip } => with_flips(m, seq![flip]),
    }
}

/// The machine with more flips handed to video output.
pub open spec fn with_flips(m: Machine, flips: Seq<Flip>) -> Machine {
    Machine { gpu: GpuLog { flips: m.gpu.flips + flips, ..m.gpu }, ..m }
}

/// The machine after all of `effects`, in order.
pub open spec fn apply_side_effects(m: Machine, effects: Seq<OrderedGpuSideEffect>) -> Machine
    decreases effects.len(),
{
    if effects.len() == 0 {
        m
    } else {
        apply_side_effect(apply_side_effects(m, effects.drop_last()), effects.last())
    }
}

/// Deliver what the GPU has executed, in execution order.
pub fn apply_ordered_gpu_side_effects(ctx: &mut HleContext, effects: &[OrderedGpuSideEffect])
    ensures
        final(ctx)@ == apply_side_effects(old(ctx)@, effects@),
{
    let ghost before = ctx@;
    let mut i: usize = 0;
    assert(effects@.take(0) =~= Seq::<OrderedGpuSideEffect>::empty());
    while i < effects.len()
        invariant
            i <= effects@.len(),
            before == old(ctx)@,
            ctx@ == apply_side_effects(before, effects@.take(i as int)),
        decreases effects@.len() - i,
    {
        assert(effects@.take(i + 1).drop_last() =~= effects@.take(i as int));
        match effects[i] {
            OrderedGpuSideEffect::EventWrite { event_id } => {
                ctx.kernel.kernel_equeue_events.signal(event_id);
            },
            OrderedGpuSideEffect::EopInterrupt { context_id } => {
                ctx.kernel.kernel_equeue_events.signal_interrupts(1, context_id);
            },
            OrderedGpuSideEffect::Flip { flip } => {
                let ghost flips = ctx@.gpu.flips;
                ctx.gpu.flips.push(flip);
                assert(ctx@.gpu.flips =~= flips + seq![flip]);
            },
        }
        i += 1;
    }
    assert(effects@.take(i as int) =~= effects@);
}

/// The stream that a compute buffer stands for: a descriptor of five DWORDs
/// (address, length, zero, magic) points at the real one.
pub open spec fn unwrap_descriptor(m: Mem, address: u64, dwords: u32) -> (u64, u32) {
    if dwords < 5 {
        (address, dwords)
    } else {
        match load_words(m, address as int, 5) {
            None => (address, dwords),
            Some(w) => {
                let target = (w[0] as u64) | ((w[1] as u64) << 32);
                if target != 0 && w[2] != 0 && w[3] == 0 && w[4] == ACB_DESCRIPTOR_MAGIC {
                    (target, w[2])
                } else {
                    (address, dwords)
                }
            },
        }
    }
}

/// Find the stream that a compute buffer stands for.
pub fn unwrap_acb_descriptor(ctx: &HleContext, address: u64, dwords: u32) -> (r: (u64, u32))
    ensures
        r == unwrap_descriptor(ctx@.mem, address, dwords),
{
    if dwords < 5 {
        return (address, dwords);
    }
    match ctx.mem.read_words(address, 0, 5) {
        None => (address, dwords),
        Some(w) => {
            let target: u64 = (w[0] as u64) | ((w[1] as u64) << 32);
            if target != 0 && w[2] != 0 && w[3] == 0 && w[4] == ACB_DESCRIPTOR_MAGIC {
                (target, w[2])
            } else {
                (address, dwords)
            }
        },
    }
}

/// A stream length that is accepted.
pub open spec fn acceptable(dwords: u32) -> bool {
    0 < dwords <= MAX_STREAM_DWORDS
}

/// The first entry of a list from `index` on with an address and a size: the
/// index behind it, the address and the size.
pub open spec fn next_entry(m: Mem, list: SubmitList) -> Option<(u64, u64, u32)>
    decreases list.count - list.index,
{
    if list.index >= list.count {
        None
    } else {
        let address = u64_or_zero(m, list.addresses + 8 * list.index);
        let dwords = u32_or_zero(m, list.sizes + 4 * list.index);
        let index = (list.index + 1) as u64;
        if address == 0 || dwords == 0 {
            next_entry(m, SubmitList { index, ..list })
        } else {
            Some((index, address, dwords))
        }
    }
}

/// The next stream of a list, or the end of the call.
pub open spec fn advance_list(m: Mem, list: SubmitList) -> Submit {
    match next_entry(m, list) {
        Some((index, address, dwords)) => Submit::Drain {
            address,
            dwords,
            queue: list.queue,
            acb: None,
            list: Some(SubmitList { index, ..list }),
        },
        None => Submit::Done { code: OK },
    }
}

/// Read the entry at `index`. Entries behind the end of the address space have
/// a null address.
fn read_entry(ctx: &HleContext, list: SubmitList, index: u64) -> (r: (u64, u32))
    ensures
        r.0 == u64_or_zero(ctx@.mem, list.addresses + 8 * index),
        r.0 != 0 ==> r.1 == u32_or_zero(ctx@.mem, list.sizes + 4 * index),
{
    if index > u64::MAX / 8 {
        proof {
            ctx.mem.lemma_addresses();
            assert(!ctx@.mem.dom().contains(list.addresses + 8 * index));
        }
        return (0, 0);
    }
    (
        ctx.mem.read_u64_or_zero(list.addresses, 8 * index),
        ctx.mem.read_u32_or_zero(list.sizes, 4 * index),
    )
}

/// Go on with the next stream of a list.
fn advance(ctx: &HleContext, list: SubmitList) -> (r: SubmitState)
    ensures
        r@ == advance_list(ctx@.mem, list),
{
    let mut index: u64 = list.index;
    while index < list.count
        invariant
            next_entry(ctx@.mem, SubmitList { index, ..list }) == next_entry(ctx@.mem, list),
        decreases list.count - index,
    {
        let (address, dwords): (u64, u32) = read_entry(ctx, list, index);
        index += 1;
        if address != 0 && dwords != 0 {
            return SubmitState::Drain {
                address,
                dwords,
                queue: list.queue,
                acb: None,
                list: Some(SubmitList { index, ..list }),
            };
        }
    }
    SubmitState::Done { code: OK }
}

/// What follows when a stream ended with `code`: the compute stream that waited
/// for it, after dropping the pending segment if it failed; else the next of
/// the list, whatever the code; else the end of the call.
pub open spec fn finish_stream(
    m: Machine,
    code: u64,
    acb: Option<StreamView>,
    list: Option<SubmitList>,
) -> (Machine, Submit) {
    match acb {
        Some(stream) => (
            if code == OK {
                m
            } else {
                with_segment(m, no_segment())
            },
            Submit::Decode { stream, acb: None, list },
        ),
        None => (m, match list {
            Some(list) => advance_list(m.mem, list),
            None => Submit::Done { code },
        }),
    }
}

/// Go on after a stream ended.
fn finish(ctx: &mut HleContext, code: u64, acb: Option<Stream>, list: Option<SubmitList>) -> (r:
    SubmitState)
    ensures
        final(ctx)@ == finish_stream(old(ctx)@, code, stream_view(acb), list).0,
        r@ == finish_stream(old(ctx)@, code, stream_view(acb), list).1,
{
    match acb {
        Some(stream) => {
            if code != OK {
                ctx.kernel.agc.segment = AgcPendingGraphicsSegment {
                    start: 0,
                    end: 0,
                    range_end: 0,
                };
            }
            SubmitState::Decode { stream, acb: None, list }
        },
        None => match list {
            Some(list) => advance(ctx, list),
            None => SubmitState::Done { code },
        },
    }
}

/// The step from [`Submit::Drain`]: deliver what the GPU executed, check and
/// read the stream, and, for a compute stream, let the pending graphics segment
/// go first.
pub open spec fn drain_step(m: Machine, s: Submit, effects: Seq<OrderedGpuSideEffect>) -> (
    Machine,
    Submit,
) {
    match s {
        Submit::Drain { address, dwords, queue, acb, list } => {
            let m = apply_side_effects(m, effects);
            let (at, n) = if queue == GpuQueue::AsyncCompute {
                unwrap_descriptor(m.mem, address, dwords)
            } else {
                (address, dwords)
            };
            if address == 0 || !acceptable(dwords) || !acceptable(n) {
                finish_stream(m, SCE_ERROR_INVALID_ARGUMENT, acb, list)
            } else {
                match load_words(m.mem, at as int, n as nat) {
                    None => finish_stream(m, SCE_ERROR_INVALID_ARGUMENT, acb, list),
                    Some(words) => {
                        let stream = StreamView { address: at, words, queue };
                        if queue == GpuQueue::Graphics {
                            (m, Submit::Decode { stream, acb, list })
                        } else {
                            let (segment, flush) = flush_plan(m.mem, m.agc.segment, words);
                            (with_segment(m, segment), match flush {
                                Some(k) => Submit::Drain {
                                    address: segment.start,
                                    dwords: k,
                                    queue: GpuQueue::Graphics,
                                    acb: Some(stream),
                                    list,
                                },
                                None => Submit::Decode { stream, acb, list },
                            })
                        }
                    },
                }
            }
        },
        _ => (m, s),
    }
}

/// Take what the GPU has executed, and go on with the submission. Other states
/// stay as they are.
pub fn drained(
    ctx: &mut HleContext,
    state: SubmitState,
    effects: &[OrderedGpuSideEffect],
) -> (r: SubmitState)
    ensures
        final(ctx)@ == drain_step(old(ctx)@, state@, effects@).0,
        r@ == drain_step(old(ctx)@, state@, effects@).1,
{
    match state {
        SubmitState::Drain { address, dwords, queue, acb, list } => {
            apply_ordered_gpu_side_effects(ctx, effects);
            if address == 0 || dwords == 0 || dwords > MAX_STREAM_DWORDS {
                return finish(ctx, SCE_ERROR_INVALID_ARGUMENT, acb, list);
            }
            let compute = matches!(queue, GpuQueue::AsyncCompute);
            let (at, n): (u64, u32) = if compute {
                unwrap_acb_descriptor(ctx, address, dwords)
            } else {
                (address, dwords)
            };
            if n == 0 || n > MAX_STREAM_DWORDS {
                return finish(ctx, SCE_ERROR_INVALID_ARGUMENT, acb, list);
            }
            let words = match ctx.mem.read_words(at, 0, n as usize) {
                Some(words) => words,
                None => {
                    return finish(ctx, SCE_ERROR_INVALID_ARGUMENT, acb, list);
                },
            };
            if compute {
                let flush = plan_flush(ctx, words.as_slice());
                let stream = Stream { address: at, words, queue };
                match flush {
                    Some(k) => SubmitState::Drain {
                        address: ctx.kernel.agc.segment.start,
                        dwords: k,
                        queue: GpuQueue::Graphics,
                        acb: Some(stream),
                        list,
                    },
                    None => SubmitState::Decode { stream, acb, list },
                }
            } else {
                SubmitState::Decode { stream: Stream { address: at, words, queue }, acb, list }
            }
        },
        _ => state,
    }
}

/// Memory after the writes, in order, stopping at the first that does not fit.
pub open spec fn apply_writes(m: Mem, writes: Seq<(u64, Seq<u8>)>) -> (Mem, bool)
    decreases writes.len(),
{
    if writes.len() == 0 {
        (m, true)
    } else {
        let (before, ok) = apply_writes(m, writes.drop_last());
        if ok {
            put(before, writes.last().0 as int, writes.last().1)
        } else {
            (before, false)
        }
    }
}

proof fn lemma_apply_writes_stops(m: Mem, writes: Seq<(u64, Seq<u8>)>, k: int)
    requires
        0 <= k <= writes.len(),
        !apply_writes(m, writes.take(k)).1,
    ensures
        apply_writes(m, writes) == apply_writes(m, writes.take(k)),
    decreases writes.len() - k,
{
    if k == writes.len() {
        assert(writes.take(k) =~= writes);
    } else {
        assert(writes.take(k + 1).drop_last() =~= writes.take(k));
        lemma_apply_writes_stops(m, writes, k + 1);
    }
}

fn run_writes(ctx: &mut HleContext, d: &DecodedSubmission) -> (ok: bool)
    ensures
        final(ctx)@ == old(ctx)@.with_mem(apply_writes(old(ctx)@.mem, d@.writes).0),
        ok == apply_writes(old(ctx)@.mem, d@.writes).1,
{
    let ghost before = ctx@;
    let ghost writes = d@.writes;
    let mut i: usize = 0;
    assert(writes.take(0) =~= Seq::<(u64, Seq<u8>)>::empty());
    while i < d.memory_writes.len()
        invariant
            i <= d.memory_writes@.len(),
            before == old(ctx)@,
            writes == d@.writes,
            apply_writes(before.mem, writes.take(i as int)) == (ctx@.mem, true),
            ctx@ == before.with_mem(ctx@.mem),
        decreases d.memory_writes@.len() - i,
    {
        let w = &d.memory_writes[i];
        proof {
            assert(writes.take(i + 1).drop_last() =~= writes.take(i as int));
            assert(writes.take(i + 1).last() == (w.address, w.data@));
        }
        if !ctx.mem.write(w.address, 0, w.data.as_slice()) {
            proof {
                lemma_apply_writes_stops(before.mem, writes, i + 1);
            }
            return false;
        }
        i += 1;
    }
    assert(writes.take(i as int) =~= writes);
    true
}

/// Memory and the last timestamp after the first `n` fences, stopping at the
/// first that cannot be written.
pub open spec fn apply_timestamps(
    m: Mem,
    last: u64,
    fences: Seq<u64>,
    unified: bool,
    readings: Seq<u64>,
    n: nat,
) -> (Mem, u64, bool)
    decreases n,
{
    if n == 0 {
        (m, last, true)
    } else {
        let (mem, before, ok) = apply_timestamps(
            m,
            last,
            fences,
            unified,
            readings,
            (n - 1) as nat,
        );
        if !ok {
            (mem, before, false)
        } else {
            let value = if unified {
                reading(readings, n - 1)
            } else {
                next_timestamp(reading(readings, n - 1), before)
            };
            let (after, done) = put_u64(mem, fences[n - 1] as int, value);
            (after, if unified {
                before
            } else {
                value
            }, done)
        }
    }
}

proof fn lemma_apply_timestamps_stops(
    m: Mem,
    last: u64,
    fences: Seq<u64>,
    unified: bool,
    readings: Seq<u64>,
    k: nat,
    n: nat,
)
    requires
        k <= n,
        !apply_timestamps(m, last, fences, unified, readings, k).2,
    ensures
        apply_timestamps(m, last, fences, unified, readings, n) == apply_timestamps(
            m,
            last,
            fences,
            unified,
            readings,
            k,
        ),
    decreases n - k,
{
    if k < n {
        lemma_apply_timestamps_stops(m, last, fences, unified, readings, k + 1, n);
    }
}

/// The machine with another memory and another last timestamp.
pub open spec fn with_timestamp(m: Machine, mem: Mem, last: u64) -> Machine {
    Machine { mem, agc: AgcState { gpu_timestamp: last, ..m.agc }, ..m }
}

fn run_timestamps(ctx: &mut HleContext, fences: &Vec<u64>, clock: &GpuClock) -> (ok: bool)
    ensures
        ({
            let p = apply_timestamps(
                old(ctx)@.mem,
                old(ctx)@.agc.gpu_timestamp,
                fences@,
                clock.unified,
                clock.readings@,
                fences@.len(),
            );
            final(ctx)@ == with_timestamp(old(ctx)@, p.0, p.1) && ok == p.2
        }),
{
    let ghost before = ctx@;
    let mut i: usize = 0;
    while i < fences.len()
        invariant
            i <= fences@.len(),
            before == old(ctx)@,
            apply_timestamps(
                before.mem,
                before.agc.gpu_timestamp,
                fences@,
                clock.unified,
                clock.readings@,
                i as nat,
            ) == (ctx@.mem, ctx@.agc.gpu_timestamp, true),
            ctx@ == with_timestamp(before, ctx@.mem, ctx@.agc.gpu_timestamp),
        decreases fences@.len() - i,
    {
        let now: u64 = if i < clock.readings.len() {
            clock.readings[i]
        } else {
            0
        };
        let value: u64 = if clock.unified {
            now
        } else {
            next_gpu_timestamp(ctx, now)
        };
        if !ctx.mem.write_u64(fences[i], 0, value) {
            proof {
                lemma_apply_timestamps_stops(
                    before.mem,
                    before.agc.gpu_timestamp,
                    fences@,
                    clock.unified,
                    clock.readings@,
                    (i + 1) as nat,
                    fences@.len(),
                );
            }
            return false;
        }
        i += 1;
    }
    true
}

/// Memory after the copies, in order, stopping at the first whose source or
/// destination is unmapped.
pub open spec fn apply_copies(m: Mem, copies: Seq<MemoryCopy>) -> (Mem, bool)
    decreases copies.len(),
{
    if copies.len() == 0 {
        (m, true)
    } else {
        let (before, ok) = apply_copies(m, copies.drop_last());
        let c = copies.last();
        if !ok {
            (before, false)
        } else {
            match load(before, c.src as int, c.num_bytes as nat) {
                None => (before, false),
                Some(b) => put(before, c.dst as int, b),
            }
        }
    }
}

proof fn lemma_apply_copies_stops(m: Mem, copies: Seq<MemoryCopy>, k: int)
    requires
        0 <= k <= copies.len(),
        !apply_copies(m, copies.take(k)).1,
    ensures
        apply_copies(m, copies) == apply_copies(m, copies.take(k)),
    decreases copies.len() - k,
{
    if k == copies.len() {
        assert(copies.take(k) =~= copies);
    } else {
        assert(copies.take(k + 1).drop_last() =~= copies.take(k));
        lemma_apply_copies_stops(m, copies, k + 1);
    }
}

fn run_copies(ctx: &mut HleContext, copies: &Vec<MemoryCopy>) -> (ok: bool)
    ensures
        final(ctx)@ == old(ctx)@.with_mem(apply_copies(old(ctx)@.mem, copies@).0),
        ok == apply_copies(old(ctx)@.mem, copies@).1,
{
    let ghost before = ctx@;
    let mut i: usize = 0;
    assert(copies@.take(0) =~= Seq::<MemoryCopy>::empty());
    while i < copies.len()
        invariant
            i <= copies@.len(),
            before == old(ctx)@,
            apply_copies(before.mem, copies@.take(i as int)) == (ctx@.mem, true),
            ctx@ == before.with_mem(ctx@.mem),
        decreases copies@.len() - i,
    {
        let c = copies[i];
        proof {
            assert(copies@.take(i + 1).drop_last() =~= copies@.take(i as int));
        }
        let ok = match ctx.mem.read(c.src, 0, c.num_bytes as usize) {
            None => false,
            Some(b) => ctx.mem.write(c.dst, 0, b.as_slice()),
        };
        if !ok {
            proof {
                lemma_apply_copies_stops(before.mem, copies@, i + 1);
            }
            return false;
        }
        i += 1;
    }
    assert(copies@.take(i as int) =~= copies@);
    true
}

/// The bytes of a fill: the DWORD over and over, as often as it fits.
pub open spec fn fill_bytes(f: MemoryFill) -> Seq<u8> {
    Seq::new(
        (f.num_bytes / 4 * 4) as nat,
        |i: int| spec_u32_to_le_bytes(f.value)[i % 4],
    )
}

/// Memory after the fills, in order, stopping at the first that does not fit.
pub open spec fn apply_fills(m: Mem, fills: Seq<MemoryFill>) -> (Mem, bool)
    decreases fills.len(),
{
    if fills.len() == 0 {
        (m, true)
    } else {
        let (before, ok) = apply_fills(m, fills.drop_last());
        if ok {
            put(before, fills.last().address as int, fill_bytes(fills.last()))
        } else {
            (before, false)
        }
    }
}

proof fn lemma_apply_fills_stops(m: Mem, fills: Seq<MemoryFill>, k: int)
    requires
        0 <= k <= fills.len(),
        !apply_fills(m, fills.take(k)).1,
    ensures
        apply_fills(m, fills) == apply_fills(m, fills.take(k)),
    decreases fills.len() - k,
{
    if k == fills.len() {
        assert(fills.take(k) =~= fills);
    } else {
        assert(fills.take(k + 1).drop_last() =~= fills.take(k));
        lemma_apply_fills_stops(m, fills, k + 1);
    }
}

/// Build the bytes of a fill.
fn make_fill(f: MemoryFill) -> (r: Vec<u8>)
    ensures
        r@ == fill_bytes(f),
{
    let b = u32_to_le_bytes(f.value);
    proof {
        crate::bytes::lemma_auto_spec_u32_to_from_le_bytes();
    }
    let n: u32 = f.num_bytes / 4;
    let mut out: Vec<u8> = Vec::new();
    let mut i: u32 = 0;
    while i < n
        invariant
            i <= n,
            n == f.num_bytes / 4,
            b@ == spec_u32_to_le_bytes(f.value),
            b@.len() == 4,
            out@.len() == 4 * i,
            forall|j: int| 0 <= j < 4 * i ==> #[trigger] out@[j] == b@[j % 4],
        decreases n - i,
    {
        out.push(b[0]);
        out.push(b[1]);
        out.push(b[2]);
        out.push(b[3]);
        i += 1;
    }
    assert(out@ =~= fill_bytes(f));
    out
}

fn run_fills(ctx: &mut HleContext, fills: &Vec<MemoryFill>) -> (ok: bool)
    ensures
        final(ctx)@ == old(ctx)@.with_mem(apply_fills(old(ctx)@.mem, fills@).0),
        ok == apply_fills(old(ctx)@.mem, fills@).1,
{
    let ghost before = ctx@;
    let mut i: usize = 0;
    assert(fills@.take(0) =~= Seq::<MemoryFill>::empty());
    while i < fills.len()
        invariant
            i <= fills@.len(),
            before == old(ctx)@,
            apply_fills(before.mem, fills@.take(i as int)) == (ctx@.mem, true),
            ctx@ == before.with_mem(ctx@.mem),
        decreases fills@.len() - i,
    {
        let f = fills[i];
        proof {
            assert(fills@.take(i + 1).drop_last() =~= fills@.take(i as int));
        }
        let bytes = make_fill(f);
        if !ctx.mem.write(f.address, 0, bytes.as_slice()) {
            proof {
                lemma_apply_fills_stops(before.mem, fills@, i + 1);
            }
            return false;
        }
        i += 1;
    }
    assert(fills@.take(i as int) =~= fills@);
    true
}

/// Events after all of `ids` were signalled, in order.
pub open spec fn signal_all(e: Events, ids: Seq<u32>) -> Events
    decreases ids.len(),
{
    if ids.len() == 0 {
        e
    } else {
        signal_event(signal_all(e, ids.drop_last()), ids.last())
    }
}

/// The machine after a stream's events, interrupts and flips. Interrupts are
/// delivered together: their number, and the context of the last.
pub open spec fn apply_signals(m: Machine, d: Decoded) -> Machine {
    let events = signal_all(m.events, d.events);
    let events = if d.interrupts.len() == 0 {
        events
    } else {
        signal_eop(events, d.interrupts.len() as u32, d.interrupts.last())
    };
    with_flips(Machine { events, ..m }, d.flips)
}

fn run_signals(ctx: &mut HleContext, d: &DecodedSubmission)
    ensures
        final(ctx)@ == apply_signals(old(ctx)@, d@),
{
    let ghost before = ctx@;
    let mut i: usize = 0;
    assert(d.events@.take(0) =~= Seq::<u32>::empty());
    while i < d.events.len()
        invariant
            i <= d.events@.len(),
            before == old(ctx)@,
            ctx@ == (Machine {
                events: signal_all(before.events, d.events@.take(i as int)),
                ..before
            }),
        decreases d.events@.len() - i,
    {
        assert(d.events@.take(i + 1).drop_last() =~= d.events@.take(i as int));
        ctx.kernel.kernel_equeue_events.signal(d.events[i]);
        i += 1;
    }
    assert(d.events@.take(i as int) =~= d.events@);
    let n: usize = d.eop_interrupts.len();
    if n > 0 {
        ctx.kernel.kernel_equeue_events.signal_interrupts(n as u32, d.eop_interrupts[n - 1]);
    }
    let ghost signalled = ctx@;
    let mut k: usize = 0;
    assert(before.gpu.flips + d.flips@.take(0) =~= before.gpu.flips);
    while k < d.flips.len()
        invariant
            k <= d.flips@.len(),
            signalled.gpu == before.gpu,
            ctx@ == (Machine {
                gpu: GpuLog {
                    flips: before.gpu.flips + d.flips@.take(k as int),
                    ..signalled.gpu
                },
                ..signalled
            }),
        decreases d.flips@.len() - k,
    {
        ctx.gpu.flips.push(d.flips[k]);
        assert(ctx@.gpu.flips =~= before.gpu.flips + d.flips@.take(k + 1));
        k += 1;
    }
    assert(d.flips@.take(k as int) =~= d.flips@);
}

/// The machine once a stream's effects are in place: the counters move, the
/// stream goes to the GPU, and behind a graphics stream a new pending segment
/// starts.
pub open spec fn record_stream(m: Machine, s: StreamView, d: Decoded) -> Machine {
    let agc = AgcState {
        last_dcb_address: s.address,
        last_dcb_dwords: s.words.len() as u32,
        submission_count: m.agc.submission_count.wrapping_add(1),
        draw_packet_count: m.agc.draw_packet_count.wrapping_add(d.draws as u64),
        dispatch_packet_count: m.agc.dispatch_packet_count.wrapping_add(d.dispatches as u64),
        flip_packet_count: m.agc.flip_packet_count.wrapping_add(d.flips.len() as u64),
        ..m.agc
    };
    let m1 = Machine {
        agc,
        gpu: GpuLog { submissions: m.gpu.submissions.push((s.words, s.queue)), ..m.gpu },
        ..m
    };
    if s.queue == GpuQueue::Graphics && s.address != 0 && s.words.len() as u32 != 0 {
        with_segment(m1, segment_behind(s.address, s.words.len() as u32))
    } else {
        m1
    }
}

/// Run a decoded stream. Unless the GPU does it itself (`defer`), its memory
/// effects come first, each kind in packet order, and the first that fails ends
/// the stream with an error; then its events, interrupts and flips.
pub open spec fn run_stream(
    m: Machine,
    s: StreamView,
    d: Decoded,
    defer: bool,
    unified: bool,
    readings: Seq<u64>,
) -> (Machine, u64) {
    if defer {
        (record_stream(m, s, d), OK)
    } else {
        let (m1, ok1) = apply_writes(m.mem, d.writes);
        let (m2, last, ok2) = apply_timestamps(
            m1,
            m.agc.gpu_timestamp,
            d.timestamps,
            unified,
            readings,
            d.timestamps.len(),
        );
        let (m3, ok3) = apply_copies(m2, d.copies);
        let (m4, ok4) = apply_fills(m3, d.fills);
        if !ok1 {
            (m.with_mem(m1), SCE_ERROR_INVALID_ARGUMENT)
        } else if !ok2 {
            (with_timestamp(m, m2, last), SCE_ERROR_INVALID_ARGUMENT)
        } else if !ok3 {
            (with_timestamp(m, m3, last), SCE_ERROR_INVALID_ARGUMENT)
        } else if !ok4 {
            (with_timestamp(m, m4, last), SCE_ERROR_INVALID_ARGUMENT)
        } else {
            (record_stream(apply_signals(with_timestamp(m, m4, last), d), s, d), OK)
        }
    }
}

fn record(ctx: &mut HleContext, s: Stream, d: &DecodedSubmission)
    ensures
        final(ctx)@ == record_stream(old(ctx)@, s@, d@),
{
    let n: u32 = s.words.len() as u32;
    let graphics = matches!(s.queue, GpuQueue::Graphics);
    ctx.kernel.agc.last_dcb_address = s.address;
    ctx.kernel.agc.last_dcb_dwords = n;
    ctx.kernel.agc.submission_count = ctx.kernel.agc.submission_count.wrapping_add(1);
    ctx.kernel.agc.draw_packet_count = ctx.kernel.agc.draw_packet_count.wrapping_add(
        d.draw_packets as u64,
    );
    ctx.kernel.agc.dispatch_packet_count = ctx.kernel.agc.dispatch_packet_count.wrapping_add(
        d.dispatch_packets as u64,
    );
    ctx.kernel.agc.flip_packet_count = ctx.kernel.agc.flip_packet_count.wrapping_add(
        d.flips.len() as u64,
    );
    let ghost log = ctx@.gpu.submissions;
    let ghost entry = (s.words@, s.queue);
    let address: u64 = s.address;
    ctx.gpu.submissions.push(GpuSubmission { words: s.words, queue: s.queue });
    assert(ctx@.gpu.submissions =~= log.push(entry));
    if graphics {
        track_pending_graphics_segment_after_submit(ctx, address, n);
    }
}

fn run(
    ctx: &mut HleContext,
    s: Stream,
    d: &DecodedSubmission,
    defer: bool,
    clock: &GpuClock,
) -> (r: u64)
    ensures
        final(ctx)@ == run_stream(
            old(ctx)@,
            s@,
            d@,
            defer,
            clock.unified,
            clock.readings@,
        ).0,
        r == run_stream(old(ctx)@, s@, d@, defer, clock.unified, clock.readings@).1,
{
    if !defer {
        if !run_writes(ctx, d) {
            return SCE_ERROR_INVALID_ARGUMENT;
        }
        if !run_timestamps(ctx, &d.timestamp_writes, clock) {
            return SCE_ERROR_INVALID_ARGUMENT;
        }
        if !run_copies(ctx, &d.memory_copies) {
            return SCE_ERROR_INVALID_ARGUMENT;
        }
        if !run_fills(ctx, &d.memory_fills) {
            return SCE_ERROR_INVALID_ARGUMENT;
        }
        run_signals(ctx, d);
    }
    record(ctx, s, d);
    OK
}

/// The step from [`Submit::Decode`]: run the decoded stream, or fail when it
/// could not be decoded, and go on.
pub open spec fn decode_step(
    m: Machine,
    s: Submit,
    d: Option<Decoded>,
    defer: bool,
    unified: bool,
    readings: Seq<u64>,
) -> (Machine, Submit) {
    match s {
        Submit::Decode { stream, acb, list } => match d {
            None => finish_stream(m, SCE_ERROR_INVALID_ARGUMENT, acb, list),
            Some(d) => {
                let (m1, code) = run_stream(m, stream, d, defer, unified, readings);
                finish_stream(m1, code, acb, list)
            },
        },
        _ => (m, s),
    }
}

/// Take the decoded form of the stream, or `None` when it is malformed, and go
/// on with the submission. Other states stay as they are.
pub fn decoded(
    ctx: &mut HleContext,
    state: SubmitState,
    d: Option<DecodedSubmission>,
    defer: bool,
    clock: &GpuClock,
) -> (r: SubmitState)
    ensures
        ({
            let view = match d {
                Some(d) => Some(d@),
                None => None,
            };
            let p = decode_step(
                old(ctx)@,
                state@,
                view,
                defer,
                clock.unified,
                clock.readings@,
            );
            final(ctx)@ == p.0 && r@ == p.1
        }),
{
    match state {
        SubmitState::Decode { stream, acb, list } => match d {
            None => finish(ctx, SCE_ERROR_INVALID_ARGUMENT, acb, list),
            Some(d) => {
                let code: u64 = run(ctx, stream, &d, defer, clock);
                finish(ctx, code, acb, list)
            },
        },
        _ => state,
    }
}

/// The start of a submission through a descriptor at `packet`: an address and a
/// length in 16 readable bytes.
pub open spec fn submit_start(m: Mem, packet: u64, queue: GpuQueue) -> Submit {
    if packet == 0 || !mapped(m, packet as int, 16) {
        Submit::Done { code: SCE_ERROR_INVALID_ARGUMENT }
    } else {
        Submit::Drain {
            address: load_u64(m, packet as int)->0,
            dwords: load_u32(m, packet + 8)->0,
            queue,
            acb: None,
            list: None,
        }
    }
}

/// Start a submission through a descriptor.
pub fn submit_validate(ctx: &HleContext, packet: u64, queue: GpuQueue) -> (r: SubmitState)
    ensures
        r@ == submit_start(ctx@.mem, packet, queue),
{
    if packet == 0 {
        return SubmitState::Done { code: SCE_ERROR_INVALID_ARGUMENT };
    }
    match ctx.mem.read(packet, 0, 16) {
        None => SubmitState::Done { code: SCE_ERROR_INVALID_ARGUMENT },
        Some(_) => match (ctx.mem.read_u64(packet, 0), ctx.mem.read_u32(packet, 8)) {
            (Some(address), Some(dwords)) => SubmitState::Drain {
                address,
                dwords,
                queue,
                acb: None,
                list: None,
            },
            _ => {
                proof {
                    assert(mapped(ctx@.mem, packet as int, 8));
                    assert(mapped(ctx@.mem, packet + 8, 4));
                }
                SubmitState::Done { code: SCE_ERROR_INVALID_ARGUMENT }
            },
        },
    }
}

/// `sceAgcDriverSubmitDcb(packet)`.
pub fn hle_driver_submit_dcb(ctx: &HleContext, args: &[u64]) -> (r: SubmitState)
    ensures
        r@ == submit_start(ctx@.mem, arg(args@, 0), GpuQueue::Graphics),
{
    submit_validate(ctx, get_arg(args, 0), GpuQueue::Graphics)
}

/// `sceAgcDriverSubmitAcb(owner, packet)`.
pub fn hle_driver_submit_acb(ctx: &HleContext, args: &[u64]) -> (r: SubmitState)
    ensures
        r@ == submit_start(ctx@.mem, arg(args@, 1), GpuQueue::AsyncCompute),
{
    submit_validate(ctx, get_arg(args, 1), GpuQueue::AsyncCompute)
}

/// The start of a list submission: 64-bit addresses, 32-bit sizes in DWORDs,
/// and their number.
pub open spec fn submit_list_start(m: Mem, a: Seq<u64>, queue: GpuQueue) -> Submit {
    if arg(a, 0) == 0 || arg(a, 1) == 0 || arg(a, 2) == 0 || arg(a, 2) > MAX_LIST_BUFFERS {
        Submit::Done { code: SCE_ERROR_INVALID_ARGUMENT }
    } else {
        advance_list(
            m,
            SubmitList {
                addresses: arg(a, 0),
                sizes: arg(a, 1),
                count: arg(a, 2),
                index: 0,
                queue,
            },
        )
    }
}

/// Start a list submission.
pub fn driver_submit_multi(ctx: &HleContext, args: &[u64], queue: GpuQueue) -> (r: SubmitState)
    ensures
        r@ == submit_list_start(ctx@.mem, args@, queue),
{
    let addresses: u64 = get_arg(args, 0);
    let sizes: u64 = get_arg(args, 1);
    let count: u64 = get_arg(args, 2);
    if addresses == 0 || sizes == 0 || count == 0 || count > MAX_LIST_BUFFERS {
        return SubmitState::Done { code: SCE_ERROR_INVALID_ARGUMENT };
    }
    advance(ctx, SubmitList { addresses, sizes, count, index: 0, queue })
}

/// `sceAgcDriverSubmitMultiDcbs(addressArray, sizeArray, bufferCount)`.
pub fn hle_driver_submit_multi_dcbs(ctx: &HleContext, args: &[u64]) -> (r: SubmitState)
    ensures
        r@ == submit_list_start(ctx@.mem, args@, GpuQueue::Graphics),
{
    driver_submit_multi(ctx, args, GpuQueue::Graphics)
}

/// `sceAgcDriverSubmitMultiAcbs(addressArray, sizeArray, bufferCount)`.
pub fn hle_driver_submit_multi_acbs(ctx: &HleContext, args: &[u64]) -> (r: SubmitState)
    ensures
        r@ == submit_list_start(ctx@.mem, args@, GpuQueue::AsyncCompute),
{
    driver_submit_multi(ctx, args, GpuQueue::AsyncCompute)
}

proof fn lemma_side_effects_keep_submissions(m: Machine, effects: Seq<OrderedGpuSideEffect>)
    ensures
        apply_side_effects(m, effects).gpu.submissions == m.gpu.submissions,
        apply_side_effects(m, effects).mem == m.mem,
        apply_side_effects(m, effects).agc == m.agc,
    decreases effects.len(),
{
    if effects.len() > 0 {
        lemma_side_effects_keep_submissions(m, effects.drop_last());
    }
}

/// A stream that ends well reaches the GPU exactly once, behind everything
/// submitted before; one that ends with an error does not reach it.
pub proof fn law_stream_reaches_gpu_once(
    m: Machine,
    s: StreamView,
    d: Decoded,
    defer: bool,
    unified: bool,
    readings: Seq<u64>,
)
    ensures
        ({
            let (after, code) = run_stream(m, s, d, defer, unified, readings);
            after.gpu.submissions == if code == OK {
                m.gpu.submissions.push((s.words, s.queue))
            } else {
                m.gpu.submissions
            }
        }),
{
}

/// Graphics work that is pending when a compute stream is submitted reaches the
/// GPU first: with both streams well formed, the two follow each other in that
/// order.
pub proof fn law_pending_graphics_precede_compute(
    m: Machine,
    address: u64,
    dwords: u32,
    list: Option<SubmitList>,
    executed: Seq<OrderedGpuSideEffect>,
    executed_then: Seq<OrderedGpuSideEffect>,
    graphics: Decoded,
    compute: Decoded,
    defer: bool,
    unified: bool,
    readings: Seq<u64>,
)
    requires
        ({
            let entry = Submit::Drain {
                address,
                dwords,
                queue: GpuQueue::AsyncCompute,
                acb: None,
                list,
            };
            let (m1, s1) = drain_step(m, entry, executed);
            let (m2, s2) = drain_step(m1, s1, executed_then);
            let (m3, s3) = decode_step(m2, s2, Some(graphics), defer, unified, readings);
            &&& s1 is Drain && s1->Drain_queue == GpuQueue::Graphics && s1->Drain_acb is Some
            &&& s2 is Decode
            &&& s2->Decode_stream.queue == GpuQueue::Graphics
            &&& run_stream(
                m2,
                s2->Decode_stream,
                graphics,
                defer,
                unified,
                readings,
            ).1 == OK
            &&& run_stream(
                m3,
                s1->Drain_acb->0,
                compute,
                defer,
                unified,
                readings,
            ).1 == OK
        }),
    ensures
        ({
            let entry = Submit::Drain {
                address,
                dwords,
                queue: GpuQueue::AsyncCompute,
                acb: None,
                list,
            };
            let (m1, s1) = drain_step(m, entry, executed);
            let (m2, s2) = drain_step(m1, s1, executed_then);
            let (m3, s3) = decode_step(m2, s2, Some(graphics), defer, unified, readings);
            let (m4, s4) = decode_step(m3, s3, Some(compute), defer, unified, readings);
            &&& m4.gpu.submissions == m.gpu.submissions.push(
                (s2->Decode_stream.words, GpuQueue::Graphics),
            ).push((s1->Drain_acb->0.words, GpuQueue::AsyncCompute))
        }),
{
    let entry = Submit::Drain { address, dwords, queue: GpuQueue::AsyncCompute, acb: None, list };
    lemma_side_effects_keep_submissions(m, executed);
    let (m1, s1) = drain_step(m, entry, executed);
    lemma_side_effects_keep_submissions(m1, executed_then);
}

/// A graphics stream that could not be submitted ahead of a compute stream is
/// given up: the compute stream runs, and nothing is pending any more.
pub proof fn law_failed_flush_is_dropped(
    m: Machine,
    stream: StreamView,
    compute: StreamView,
    list: Option<SubmitList>,
    defer: bool,
    unified: bool,
    readings: Seq<u64>,
)
    ensures
        decode_step(
            m,
            Submit::Decode { stream, acb: Some(compute), list },
            None,
            defer,
            unified,
            readings,
        ) == (
            with_segment(m, no_segment()),
            Submit::Decode { stream: compute, acb: None, list },
        ),
{
}

/// When the GPU executes a stream's effects itself, submitting it leaves
/// memory, events and flips alone.
pub proof fn law_deferred_stream_is_silent(
    m: Machine,
    s: StreamView,
    d: Decoded,
    unified: bool,
    readings: Seq<u64>,
)
    ensures
        ({
            let after = run_stream(m, s, d, true, unified, readings).0;
            after.mem == m.mem && after.events == m.events && after.gpu.flips == m.gpu.flips
                && after.agc.gpu_timestamp == m.agc.gpu_timestamp
        }),
{
}

} // verus!
