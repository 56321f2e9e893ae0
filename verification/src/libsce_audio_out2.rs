//! libSceAudioOut2: output contexts and ports.
//!
//! A context plays in grains and paces whoever feeds it; a port belongs to a
//! context and points at the samples that the next push plays. The contexts and
//! the ports are rows of plain numbers in two concurrent tables.
use vstd::prelude::*;
use crate::agc::packet::{lo, lo32};
use crate::context::{
    arg, checked, get_arg, AudioOut, HleContext, Machine, OK, SCE_ERROR_INVALID_ARGUMENT,
    SCE_ERROR_MEMORY_FAULT,
};
use crate::mem::{bytes_of, load, load_u32, load_u64, to_bytes, u32_or_zero, GuestMemory, Mem};
use crate::pace::{duration, duration_ns, later, later_ns};
use crate::registry::{
    Export, Handler, HleRegistry, Outcome, Registry, Reply, answered, returns_value, with_exports,
};
use crate::rows::{
    rows_all, rows_contains, rows_get, rows_insert, rows_remove, rows_retain_not_owned, Row,
};

pub mod laws;

verus! {

pub const CONTEXT_PARAM_SIZE: u32 = 0x30;

pub const CONTEXT_MEMORY_SIZE: u64 = 0x10000;

/// The most bytes of samples that one push of a port plays.
pub const MAX_PCM_BYTES: u64 = 1_048_576;

pub const MAX_CHANNELS: u32 = 16;

/// The most attributes that one call looks at.
pub const MAX_ATTRIBUTES: u64 = 64;

/// The bytes of one attribute: its id at `+0x00`, the address of its value at
/// `+0x08` and the size of its value at `+0x10`.
pub const ATTRIBUTE_STRIDE: u64 = 24;

/// The attribute whose value points at a port's samples.
pub const ATTRIBUTE_ID_PCM: u32 = 0;

pub const DEFAULT_FREQUENCY: u32 = 48000;

pub const DEFAULT_GRAIN: u32 = 256;

/// The bits that mark a port handle.
pub const PORT_TAG: u64 = 0x2000_0000;

/// A port: its context, the format of its samples, the frames that one push
/// plays, and where the samples are (zero when that is not known yet).
#[derive(Clone, Copy, PartialEq, Eq, Structural, Debug)]
pub struct PortAudio {
    pub context: u64,
    pub channels: u32,
    pub is_float: bool,
    pub sample_rate: u32,
    pub grain: u32,
    pub pcm_ptr: u64,
}

/// A port as a row.
pub open spec fn port_row(p: PortAudio) -> Row {
    (
        p.context,
        p.channels as u64,
        if p.is_float {
            1
        } else {
            0
        },
        p.sample_rate as u64,
        p.grain as u64,
        p.pcm_ptr,
    )
}

/// The port of a row.
pub open spec fn row_port(r: Row) -> PortAudio {
    PortAudio {
        context: r.0,
        channels: lo(r.1),
        is_float: r.2 != 0,
        sample_rate: lo(r.3),
        grain: lo(r.4),
        pcm_ptr: r.5,
    }
}

fn to_row(p: &PortAudio) -> (r: Row)
    ensures
        r == port_row(*p),
{
    let float: u64 = if p.is_float {
        1
    } else {
        0
    };
    (p.context, p.channels as u64, float, p.sample_rate as u64, p.grain as u64, p.pcm_ptr)
}

fn from_row(r: Row) -> (p: PortAudio)
    ensures
        p == row_port(r),
{
    PortAudio {
        context: r.0,
        channels: lo32(r.1),
        is_float: r.2 != 0,
        sample_rate: lo32(r.3),
        grain: lo32(r.4),
        pcm_ptr: r.5,
    }
}

/// A context as a row: the frames of a grain, the nanoseconds that they play,
/// and the time at which the grain that was started last is over. A frequency
/// or a grain of zero stands for the default.
pub open spec fn context_row(frequency: u32, grain: u32) -> Row {
    let f = if frequency == 0 {
        DEFAULT_FREQUENCY
    } else {
        frequency
    };
    let g = if grain == 0 {
        DEFAULT_GRAIN
    } else {
        grain
    };
    (g as u64, duration(g, f) as u64, 0, 0, 0, 0)
}

fn new_context_row(frequency: u32, grain: u32) -> (r: Row)
    ensures
        r == context_row(frequency, grain),
{
    let f: u32 = if frequency == 0 {
        DEFAULT_FREQUENCY
    } else {
        frequency
    };
    let g: u32 = if grain == 0 {
        DEFAULT_GRAIN
    } else {
        grain
    };
    (g as u64, duration_ns(g, f), 0, 0, 0, 0)
}

impl Machine {
    /// The machine with other audio-output state.
    pub open spec fn with_audio(self, audio_out2: AudioOut) -> Machine {
        Machine { audio_out2, ..self }
    }
}

/// `sceAudioOut2{Initialize,UserDestroy}`: nothing to do.
pub fn hle_ok() -> (r: u64)
    ensures
        r == OK,
{
    OK
}

/// Fill a parameter block with its defaults: its size, two channels, 48000 Hz
/// and a grain of 0x400 frames.
pub open spec fn context_reset_param(m: Machine, a: Seq<u64>) -> (Machine, u64) {
    if arg(a, 0) == 0 {
        (m, SCE_ERROR_INVALID_ARGUMENT)
    } else {
        checked(
            m.put(
                arg(a, 0) as int,
                bytes_of(seq![CONTEXT_PARAM_SIZE, 2u32, 48000u32, 0x400u32, 0, 0, 0, 0, 0, 0, 0, 0]),
            ),
            OK,
            SCE_ERROR_MEMORY_FAULT,
        )
    }
}

/// Write DWORDs; `OK`, or a fault when they cannot be written.
fn write_words(ctx: &mut HleContext, at: u64, words: &[u32]) -> (r: u64)
    requires
        words@.len() <= 16,
    ensures
        final(ctx)@ == old(ctx)@.put(at as int, bytes_of(words@)).0,
        r == checked(old(ctx)@.put(at as int, bytes_of(words@)), OK, SCE_ERROR_MEMORY_FAULT).1,
{
    let bytes = to_bytes(words);
    if ctx.mem.write(at, 0, bytes.as_slice()) {
        OK
    } else {
        SCE_ERROR_MEMORY_FAULT
    }
}

/// `sceAudioOut2ContextResetParam(param)`.
pub fn hle_context_reset_param(ctx: &mut HleContext, args: &[u64]) -> (r: u64)
    ensures
        final(ctx)@ == context_reset_param(old(ctx)@, args@).0,
        r == context_reset_param(old(ctx)@, args@).1,
{
    let param: u64 = get_arg(args, 0);
    if param == 0 {
        return SCE_ERROR_INVALID_ARGUMENT;
    }
    write_words(ctx, param, &[CONTEXT_PARAM_SIZE, 2, 48000, 0x400, 0, 0, 0, 0, 0, 0, 0, 0])
}

/// Write how much memory a context wants.
pub open spec fn context_query_memory(m: Machine, a: Seq<u64>) -> (Machine, u64) {
    if arg(a, 0) == 0 || arg(a, 1) == 0 {
        (m, SCE_ERROR_INVALID_ARGUMENT)
    } else {
        checked(m.put_u64(arg(a, 1) as int, CONTEXT_MEMORY_SIZE), OK, SCE_ERROR_MEMORY_FAULT)
    }
}

/// `sceAudioOut2ContextQueryMemory(param, out)`.
pub fn hle_context_query_memory(ctx: &mut HleContext, args: &[u64]) -> (r: u64)
    ensures
        final(ctx)@ == context_query_memory(old(ctx)@, args@).0,
        r == context_query_memory(old(ctx)@, args@).1,
{
    let out: u64 = get_arg(args, 1);
    if get_arg(args, 0) == 0 || out == 0 {
        return SCE_ERROR_INVALID_ARGUMENT;
    }
    if ctx.mem.write_u64(out, 0, CONTEXT_MEMORY_SIZE) {
        OK
    } else {
        SCE_ERROR_MEMORY_FAULT
    }
}

/// The machine with a context that is paced as the parameter block says. A block
/// that cannot be read makes a handle without a context.
pub open spec fn context_created(m: Machine, param: u64) -> (Machine, u64) {
    let handle = m.audio_out2.next_context_handle.wrapping_add(1);
    let contexts = if load(m.mem, param as int, CONTEXT_PARAM_SIZE as nat) is Some {
        m.audio_out2.contexts.insert(
            handle,
            context_row(u32_or_zero(m.mem, param + 0x08), u32_or_zero(m.mem, param + 0x0C)),
        )
    } else {
        m.audio_out2.contexts
    };
    (
        m.with_audio(AudioOut { next_context_handle: handle, contexts, ..m.audio_out2 }),
        handle,
    )
}

/// Create a context and write its handle. Handles count up modulo 2^64.
pub open spec fn context_create(m: Machine, a: Seq<u64>) -> (Machine, u64) {
    if arg(a, 0) == 0 || arg(a, 1) == 0 || arg(a, 2) == 0 || arg(a, 3) == 0 {
        (m, SCE_ERROR_INVALID_ARGUMENT)
    } else {
        let (m1, handle) = context_created(m, arg(a, 0));
        checked(m1.put_u64(arg(a, 3) as int, handle), OK, SCE_ERROR_MEMORY_FAULT)
    }
}

/// `sceAudioOut2ContextCreate(param, memory, memorySize, out)`.
pub fn hle_context_create(ctx: &mut HleContext, args: &[u64]) -> (r: u64)
    ensures
        final(ctx)@ == context_create(old(ctx)@, args@).0,
        r == context_create(old(ctx)@, args@).1,
{
    let param: u64 = get_arg(args, 0);
    let out: u64 = get_arg(args, 3);
    if param == 0 || get_arg(args, 1) == 0 || get_arg(args, 2) == 0 || out == 0 {
        return SCE_ERROR_INVALID_ARGUMENT;
    }
    let handle: u64 = ctx.audio_out2.next_context_handle.wrapping_add(1);
    ctx.audio_out2.next_context_handle = handle;
    if ctx.mem.read(param, 0, CONTEXT_PARAM_SIZE as usize).is_some() {
        let frequency: u32 = ctx.mem.read_u32_or_zero(param, 0x08);
        let grain: u32 = ctx.mem.read_u32_or_zero(param, 0x0C);
        rows_insert(&mut ctx.audio_out2.contexts, handle, new_context_row(frequency, grain));
    }
    if ctx.mem.write_u64(out, 0, handle) {
        OK
    } else {
        SCE_ERROR_MEMORY_FAULT
    }
}

/// The ports that do not belong to `context`.
pub open spec fn ports_without(ports: Map<u64, Row>, context: u64) -> Map<u64, Row> {
    ports.remove_keys(Set::new(|k: u64| ports.dom().contains(k) && ports[k].0 == context))
}

/// Drop a context with every port that belongs to it. A handle that is not
/// known is no error.
pub open spec fn context_destroy(m: Machine, a: Seq<u64>) -> (Machine, u64) {
    (
        m.with_audio(
            AudioOut {
                contexts: m.audio_out2.contexts.remove(arg(a, 0)),
                ports: ports_without(m.audio_out2.ports, arg(a, 0)),
                ..m.audio_out2
            },
        ),
        OK,
    )
}

/// `sceAudioOut2ContextDestroy(context)`.
pub fn hle_context_destroy(ctx: &mut HleContext, args: &[u64]) -> (r: u64)
    ensures
        final(ctx)@ == context_destroy(old(ctx)@, args@).0,
        r == context_destroy(old(ctx)@, args@).1,
{
    let handle: u64 = get_arg(args, 0);
    let ghost before = ctx@;
    rows_remove(&mut ctx.audio_out2.contexts, handle);
    rows_retain_not_owned(&mut ctx.audio_out2.ports, handle);
    assert(ctx@.audio_out2.ports =~= ports_without(before.audio_out2.ports, handle));
    OK
}

/// Start the next grain of a context at `now`: how long the caller has to wait
/// for it. When the last grain is over, the next one starts at once; otherwise
/// it starts when the last one ends. A context that is not known is not paced.
pub open spec fn paced(m: Machine, context: u64, now: u64) -> (Machine, u64) {
    let contexts = m.audio_out2.contexts;
    let row = contexts[context];
    if !contexts.dom().contains(context) {
        (m, 0)
    } else {
        let start = if row.2 <= now {
            now
        } else {
            row.2
        };
        (
            m.with_audio(
                AudioOut {
                    contexts: contexts.insert(
                        context,
                        (row.0, row.1, later(start, row.1), row.3, row.4, row.5),
                    ),
                    ..m.audio_out2
                },
            ),
            (start - now) as u64,
        )
    }
}

/// Start the next grain of a context; the clock reads `now` nanoseconds. The
/// caller sleeps for as many nanoseconds as this returns.
pub fn pace_context(ctx: &mut HleContext, context: u64, now: u64) -> (wait: u64)
    ensures
        final(ctx)@ == paced(old(ctx)@, context, now).0,
        wait == paced(old(ctx)@, context, now).1,
{
    match rows_get(&ctx.audio_out2.contexts, context) {
        None => 0,
        Some(row) => {
            let start: u64 = if row.2 <= now {
                now
            } else {
                row.2
            };
            let next: u64 = later_ns(start, row.1);
            rows_insert(
                &mut ctx.audio_out2.contexts,
                context,
                (row.0, row.1, next, row.3, row.4, row.5),
            );
            start - now
        },
    }
}

/// Samples to play: so many frames of so many channels each, as they stand in
/// guest memory, at unity volume.
pub struct PortSubmission {
    pub sample_rate: u32,
    pub frames: u32,
    pub channels: u32,
    pub is_float: bool,
    pub pcm: Vec<u8>,
}

/// The view of [`PortSubmission`].
pub struct Samples {
    pub sample_rate: u32,
    pub frames: u32,
    pub channels: u32,
    pub is_float: bool,
    pub pcm: Seq<u8>,
}

impl View for PortSubmission {
    type V = Samples;

    open spec fn view(&self) -> Samples {
        Samples {
            sample_rate: self.sample_rate,
            frames: self.frames,
            channels: self.channels,
            is_float: self.is_float,
            pcm: self.pcm@,
        }
    }
}

/// `c`, made at least one and at most [`MAX_CHANNELS`].
pub open spec fn clamped(c: u32) -> u32 {
    if c < 1 {
        1
    } else if c > MAX_CHANNELS {
        MAX_CHANNELS
    } else {
        c
    }
}

/// The bytes that one push of a port plays.
pub open spec fn pcm_bytes(p: PortAudio) -> int {
    p.grain * clamped(p.channels) * (if p.is_float {
        4int
    } else {
        2int
    })
}

/// What one push of a port plays: nothing when it has no samples, when the
/// amount makes no sense, or when the samples cannot be read.
pub open spec fn port_samples(m: Mem, p: PortAudio) -> Option<Samples> {
    let n = pcm_bytes(p);
    if p.pcm_ptr == 0 || n == 0 || n > MAX_PCM_BYTES {
        None
    } else {
        match load(m, p.pcm_ptr as int, n as nat) {
            None => None,
            Some(pcm) => Some(
                Samples {
                    sample_rate: p.sample_rate,
                    frames: p.grain,
                    channels: clamped(p.channels),
                    is_float: p.is_float,
                    pcm,
                },
            ),
        }
    }
}

/// What one push of a port plays.
pub fn build_port_submission(mem: &GuestMemory, port: &PortAudio) -> (r: Option<PortSubmission>)
    ensures
        r is Some == port_samples(mem@, *port) is Some,
        r is Some ==> r->0@ == port_samples(mem@, *port)->0,
{
    if port.pcm_ptr == 0 {
        return None;
    }
    let channels: u32 = if port.channels < 1 {
        1
    } else if port.channels > MAX_CHANNELS {
        MAX_CHANNELS
    } else {
        port.channels
    };
    let width: u64 = if port.is_float {
        4
    } else {
        2
    };
    proof {
        let g = port.grain as int;
        let c = channels as int;
        let w = width as int;
        assert(0 <= g * c <= 0xFFFF_FFFF * 16) by (nonlinear_arith)
            requires
                0 <= g <= 0xFFFF_FFFF,
                1 <= c <= 16,
        ;
        assert(0 <= (g * c) * w <= 0xFFFF_FFFF * 64) by (nonlinear_arith)
            requires
                0 <= g * c <= 0xFFFF_FFFF * 16,
                2 <= w <= 4,
        ;
    }
    let n: u64 = port.grain as u64 * channels as u64 * width;
    if n == 0 || n > MAX_PCM_BYTES {
        return None;
    }
    match mem.read(port.pcm_ptr, 0, n as usize) {
        None => None,
        Some(pcm) => Some(
            PortSubmission {
                sample_rate: port.sample_rate,
                frames: port.grain,
                channels,
                is_float: port.is_float,
                pcm,
            },
        ),
    }
}

/// Whether the port with handle `k` plays when `context` is pushed.
pub open spec fn plays(m: Machine, context: u64, k: u64) -> bool {
    &&& m.audio_out2.ports.dom().contains(k)
    &&& row_port(m.audio_out2.ports[k]).context == context
    &&& port_samples(m.mem, row_port(m.audio_out2.ports[k])) is Some
}

/// `out` is what the ports in `order` play, and those are exactly the ports
/// that play when `context` is pushed, each once.
pub open spec fn pushed(m: Machine, context: u64, order: Seq<u64>, out: Seq<Samples>) -> bool {
    &&& order.len() == out.len()
    &&& order.no_duplicates()
    &&& forall|k: u64| #[trigger] order.contains(k) <==> plays(m, context, k)
    &&& forall|i: int|
        0 <= i < order.len() ==> Some(#[trigger] out[i]) == port_samples(
            m.mem,
            row_port(m.audio_out2.ports[order[i]]),
        )
}

/// The views of submissions.
pub open spec fn samples_of(v: Seq<PortSubmission>) -> Seq<Samples> {
    v.map_values(|s: PortSubmission| s@)
}

/// `sceAudioOut2ContextPush(context, blocking)`: what there is to play, in no
/// stated order. The caller plays it and then paces the context with
/// [`pace_context`].
pub fn hle_context_push(ctx: &HleContext, args: &[u64]) -> (r: Vec<PortSubmission>)
    ensures
        exists|order: Seq<u64>| pushed(ctx@, arg(args@, 0), order, samples_of(r@)),
{
    let context: u64 = get_arg(args, 0);
    let all: Vec<(u64, Row)> = rows_all(&ctx.audio_out2.ports);
    let mut out: Vec<PortSubmission> = Vec::new();
    let ghost mut order: Seq<u64> = Seq::empty();
    let ghost m = ctx@;
    let mut i: usize = 0;
    while i < all.len()
        invariant
            m == ctx@,
            i <= all@.len(),
            forall|j: int|
                0 <= j < all@.len() ==> m.audio_out2.ports.dom().contains((#[trigger] all@[j]).0)
                    && m.audio_out2.ports[all@[j].0] == all@[j].1,
            forall|j: int, k: int|
                0 <= j < k < all@.len() ==> (#[trigger] all@[j]).0 != (#[trigger] all@[k]).0,
            order.len() == out@.len(),
            order.no_duplicates(),
            forall|k: u64| #[trigger] order.contains(k) ==> plays(m, context, k) && exists|j: int|
                0 <= j < i && (#[trigger] all@[j]).0 == k,
            forall|j: int|
                0 <= j < i && plays(m, context, (#[trigger] all@[j]).0) ==> order.contains(all@[j].0),
            forall|j: int|
                0 <= j < order.len() ==> Some(#[trigger] samples_of(out@)[j]) == port_samples(
                    m.mem,
                    row_port(m.audio_out2.ports[order[j]]),
                ),
        decreases all@.len() - i,
    {
        let key: u64 = all[i].0;
        let port: PortAudio = from_row(all[i].1);
        assert(m.audio_out2.ports[all@[i as int].0] == all@[i as int].1);
        let ghost before = order;
        if port.context == context {
            match build_port_submission(&ctx.mem, &port) {
                None => {},
                Some(s) => {
                    proof {
                        if order.contains(key) {
                            let j = choose|j: int| 0 <= j < i && (#[trigger] all@[j]).0 == key;
                            assert(all@[j].0 != all@[i as int].0);
                        }
                        order = order.push(key);
                        assert(order.no_duplicates()) by {
                            assert forall|x: int, y: int|
                                0 <= x < order.len() && 0 <= y < order.len() && x != y implies order[x]
                                != order[y] by {
                                if x < before.len() {
                                    assert(before.contains(before[x]));
                                }
                                if y < before.len() {
                                    assert(before.contains(before[y]));
                                }
                            }
                        }
                        assert(order[before.len() as int] == key);
                        assert(plays(m, context, key));
                    }
                    let ghost shorter = out@;
                    out.push(s);
                    assert(samples_of(out@) =~= samples_of(shorter).push(s@));
                },
            }
        }
        proof {
            assert forall|k: u64| #[trigger] order.contains(k) implies plays(m, context, k) && exists|
                j: int,
            | 0 <= j < i + 1 && (#[trigger] all@[j]).0 == k by {
                if before.contains(k) {
                    let j = choose|j: int| 0 <= j < i && (#[trigger] all@[j]).0 == k;
                    assert(all@[j].0 == k);
                } else {
                    assert(all@[i as int].0 == k);
                }
            }
            assert forall|j: int|
                0 <= j < i + 1 && plays(m, context, (#[trigger] all@[j]).0) implies order.contains(
                all@[j].0,
            ) by {
                if j < i {
                    let x = before.index_of(all@[j].0);
                    assert(before.contains(all@[j].0));
                    assert(order[x] == all@[j].0);
                } else {
                    assert(order.len() == before.len() + 1);
                    assert(order[before.len() as int] == key);
                }
            }
        }
        i += 1;
    }
    proof {
        assert forall|k: u64| #[trigger] order.contains(k) <==> plays(m, context, k) by {
            if plays(m, context, k) {
                let j = choose|j: int| 0 <= j < all@.len() && (#[trigger] all@[j]).0 == k;
                assert(all@[j].0 == k);
            }
        }
        assert(pushed(m, context, order, samples_of(out@)));
    }
    out
}

/// The pointer to a port's samples after `n` attributes from number `i` on were
/// looked at. An attribute that cannot be read ends the list.
pub open spec fn pcm_pointer(m: Mem, attributes: u64, i: nat, n: nat, pcm: u64) -> u64
    decreases n,
{
    let base = attributes + ATTRIBUTE_STRIDE * i;
    let value = load_u64(m, base + 0x08);
    if n == 0 || load(m, base, ATTRIBUTE_STRIDE as nat) is None {
        pcm
    } else {
        let found = load_u32(m, base) == Some(ATTRIBUTE_ID_PCM) && value->0 != 0 && load_u64(
            m,
            base + 0x10,
        )->0 >= 8;
        let data = load_u64(m, value->0 as int);
        pcm_pointer(
            m,
            attributes,
            i + 1,
            (n - 1) as nat,
            if found && data is Some {
                data->0
            } else {
                pcm
            },
        )
    }
}

/// How many attributes a call looks at.
pub open spec fn attribute_count(num: u64) -> u64 {
    if num < MAX_ATTRIBUTES {
        num
    } else {
        MAX_ATTRIBUTES
    }
}

/// Take the pointer to a port's samples from a list of attributes. All other
/// attributes are accepted and have no effect.
pub open spec fn port_set_attributes(m: Machine, a: Seq<u64>) -> (Machine, u64) {
    let port = arg(a, 0);
    let ports = m.audio_out2.ports;
    let n = attribute_count(arg(a, 2));
    let row = ports[port];
    if port == 0 || arg(a, 1) == 0 || n == 0 || !ports.dom().contains(port) {
        (m, OK)
    } else {
        let pcm = pcm_pointer(m.mem, arg(a, 1), 0, n as nat, row.5);
        (
            m.with_audio(
                AudioOut {
                    ports: ports.insert(port, (row.0, row.1, row.2, row.3, row.4, pcm)),
                    ..m.audio_out2
                },
            ),
            OK,
        )
    }
}

fn find_pcm_pointer(mem: &GuestMemory, attributes: u64, n: u64, pcm: u64) -> (r: u64)
    requires
        n <= MAX_ATTRIBUTES,
    ensures
        r == pcm_pointer(mem@, attributes, 0, n as nat, pcm),
{
    let mut found: u64 = pcm;
    let mut i: u64 = 0;
    while i < n
        invariant
            i <= n,
            n <= MAX_ATTRIBUTES,
            pcm_pointer(mem@, attributes, 0, n as nat, pcm) == pcm_pointer(
                mem@,
                attributes,
                i as nat,
                (n - i) as nat,
                found,
            ),
        decreases n - i,
    {
        let at: u64 = ATTRIBUTE_STRIDE * i;
        let ghost base = attributes + at;
        match mem.read(attributes, at, ATTRIBUTE_STRIDE as usize) {
            None => {
                return found;
            },
            Some(_) => {},
        }
        assert(load_u32(mem@, base) is Some);
        assert(load_u64(mem@, base + 0x08) is Some);
        assert(load_u64(mem@, base + 0x10) is Some);
        let id: u32 = mem.read_u32_or_zero(attributes, at);
        let value: u64 = mem.read_u64_or_zero(attributes, at + 0x08);
        let size: u64 = mem.read_u64_or_zero(attributes, at + 0x10);
        if id == ATTRIBUTE_ID_PCM && value != 0 && size >= 8 {
            match mem.read_u64(value, 0) {
                Some(data) => {
                    found = data;
                },
                None => {},
            }
        }
        i += 1;
    }
    found
}

/// `sceAudioOut2PortSetAttributes(port, attributes, num)`.
pub fn hle_port_set_attributes(ctx: &mut HleContext, args: &[u64]) -> (r: u64)
    ensures
        final(ctx)@ == port_set_attributes(old(ctx)@, args@).0,
        r == port_set_attributes(old(ctx)@, args@).1,
{
    let port: u64 = get_arg(args, 0);
    let attributes: u64 = get_arg(args, 1);
    let num: u64 = get_arg(args, 2);
    let n: u64 = if num < MAX_ATTRIBUTES {
        num
    } else {
        MAX_ATTRIBUTES
    };
    if port == 0 || attributes == 0 || n == 0 {
        return OK;
    }
    match rows_get(&ctx.audio_out2.ports, port) {
        None => {},
        Some(row) => {
            let pcm: u64 = find_pcm_pointer(&ctx.mem, attributes, n, row.5);
            rows_insert(
                &mut ctx.audio_out2.ports,
                port,
                (row.0, row.1, row.2, row.3, row.4, pcm),
            );
        },
    }
    OK
}

/// Write the fill level of a context's queue: always drained. No place to write
/// to is no error.
pub open spec fn context_get_queue_level(m: Machine, a: Seq<u64>) -> (Machine, u64) {
    if arg(a, 1) == 0 {
        (m, OK)
    } else {
        checked(m.put_u64(arg(a, 1) as int, 0), OK, SCE_ERROR_MEMORY_FAULT)
    }
}

/// `sceAudioOut2ContextGetQueueLevel(context, out)`.
pub fn hle_context_get_queue_level(ctx: &mut HleContext, args: &[u64]) -> (r: u64)
    ensures
        final(ctx)@ == context_get_queue_level(old(ctx)@, args@).0,
        r == context_get_queue_level(old(ctx)@, args@).1,
{
    let level: u64 = get_arg(args, 1);
    if level != 0 && !ctx.mem.write_u64(level, 0, 0) {
        return SCE_ERROR_MEMORY_FAULT;
    }
    OK
}

/// The channels of a data format, and whether its samples are floating-point
/// numbers: bits 8 to 15 hold the channels, zero of them standing for two; the
/// low seven bits are zero for floating point.
pub open spec fn data_format(f: u32) -> (u32, bool) {
    let c = (f >> 8) & 0xFF;
    (
        if c == 0 {
            2
        } else if c < MAX_CHANNELS {
            c
        } else {
            MAX_CHANNELS
        },
        f & 0x7F == 0,
    )
}

/// The channels of a data format, and whether it is floating point.
pub fn decode_data_format(f: u32) -> (r: (u32, bool))
    ensures
        r == data_format(f),
{
    let c: u32 = (f >> 8) & 0xFF;
    let channels: u32 = if c == 0 {
        2
    } else if c < MAX_CHANNELS {
        c
    } else {
        MAX_CHANNELS
    };
    (channels, f & 0x7F == 0)
}

/// The format in a port's parameter block: channels, whether it is floating
/// point, and the rate. A block that cannot be read, or a rate out of range,
/// stands for the default.
pub open spec fn port_format(m: Mem, param: u64) -> (u32, bool, u32) {
    if param == 0 || load(m, param as int, 0x10) is None {
        (2, true, DEFAULT_FREQUENCY)
    } else {
        let (channels, float) = data_format(u32_or_zero(m, param + 0x04));
        let rate = u32_or_zero(m, param + 0x08);
        (
            channels,
            float,
            if 8000 <= rate <= 192000 {
                rate
            } else {
                DEFAULT_FREQUENCY
            },
        )
    }
}

/// The format in a port's parameter block.
pub fn read_port_format(mem: &GuestMemory, param: u64) -> (r: (u32, bool, u32))
    ensures
        r == port_format(mem@, param),
{
    if param == 0 || mem.read(param, 0, 0x10).is_none() {
        return (2, true, DEFAULT_FREQUENCY);
    }
    let (channels, float) = decode_data_format(mem.read_u32_or_zero(param, 0x04));
    let rate: u32 = mem.read_u32_or_zero(param, 0x08);
    if 8000 <= rate && rate <= 192000 {
        (channels, float, rate)
    } else {
        (channels, float, DEFAULT_FREQUENCY)
    }
}

/// The context that a port is created for: the first of arguments 0 and 3 that
/// names one, or zero.
pub open spec fn port_context(contexts: Map<u64, Row>, a: Seq<u64>) -> u64 {
    if arg(a, 0) != 0 && contexts.dom().contains(arg(a, 0)) {
        arg(a, 0)
    } else if arg(a, 3) != 0 && contexts.dom().contains(arg(a, 3)) {
        arg(a, 3)
    } else {
        0
    }
}

/// The context that a port is created for.
pub fn resolve_port_context(ctx: &HleContext, args: &[u64]) -> (r: u64)
    ensures
        r == port_context(ctx@.audio_out2.contexts, args@),
{
    let first: u64 = get_arg(args, 0);
    if first != 0 && rows_contains(&ctx.audio_out2.contexts, first) {
        return first;
    }
    let other: u64 = get_arg(args, 3);
    if other != 0 && rows_contains(&ctx.audio_out2.contexts, other) {
        return other;
    }
    0
}

/// The handle of a port: the tag, the type of the port and its rolling number.
pub open spec fn port_handle(kind: u32, number: u32) -> u64 {
    PORT_TAG | ((kind as u64) << 16) | (number & 0xFF) as u64
}

/// The port that a call creates.
pub open spec fn new_port(m: Machine, a: Seq<u64>) -> PortAudio {
    let contexts = m.audio_out2.contexts;
    let context = port_context(contexts, a);
    let (channels, is_float, sample_rate) = port_format(m.mem, arg(a, 1));
    PortAudio {
        context,
        channels,
        is_float,
        sample_rate,
        grain: if contexts.dom().contains(context) {
            lo(contexts[context].0)
        } else {
            DEFAULT_GRAIN
        },
        pcm_ptr: 0,
    }
}

/// Create a port and write its handle. The port stays when its handle cannot be
/// written.
pub open spec fn port_create(m: Machine, a: Seq<u64>) -> (Machine, u64) {
    let kind = lo(arg(a, 0));
    if kind > 255 || arg(a, 1) == 0 || arg(a, 2) == 0 || arg(a, 3) == 0 {
        (m, SCE_ERROR_INVALID_ARGUMENT)
    } else {
        let number = m.audio_out2.next_port_id.wrapping_add(1);
        let handle = port_handle(kind, number);
        let m1 = m.with_audio(
            AudioOut {
                next_port_id: number,
                ports: m.audio_out2.ports.insert(handle, port_row(new_port(m, a))),
                ..m.audio_out2
            },
        );
        checked(m1.put_u64(arg(a, 2) as int, handle), OK, SCE_ERROR_MEMORY_FAULT)
    }
}

/// `sceAudioOut2PortCreate(type, param, out, context)`.
pub fn hle_port_create(ctx: &mut HleContext, args: &[u64]) -> (r: u64)
    ensures
        final(ctx)@ == port_create(old(ctx)@, args@).0,
        r == port_create(old(ctx)@, args@).1,
{
    let kind: u32 = lo32(get_arg(args, 0));
    let param: u64 = get_arg(args, 1);
    let out: u64 = get_arg(args, 2);
    if kind > 255 || param == 0 || out == 0 || get_arg(args, 3) == 0 {
        return SCE_ERROR_INVALID_ARGUMENT;
    }
    let number: u32 = ctx.audio_out2.next_port_id.wrapping_add(1);
    let handle: u64 = PORT_TAG | ((kind as u64) << 16) | (number & 0xFF) as u64;
    let (channels, is_float, sample_rate) = read_port_format(&ctx.mem, param);
    let context: u64 = resolve_port_context(ctx, args);
    let grain: u32 = match rows_get(&ctx.audio_out2.contexts, context) {
        Some(row) => lo32(row.0),
        None => DEFAULT_GRAIN,
    };
    let port = PortAudio { context, channels, is_float, sample_rate, grain, pcm_ptr: 0 };
    ctx.audio_out2.next_port_id = number;
    rows_insert(&mut ctx.audio_out2.ports, handle, to_row(&port));
    if ctx.mem.write_u64(out, 0, handle) {
        OK
    } else {
        SCE_ERROR_MEMORY_FAULT
    }
}

/// The port with a handle.
pub fn port(ctx: &HleContext, handle: u64) -> (r: Option<PortAudio>)
    ensures
        r == (if ctx@.audio_out2.ports.dom().contains(handle) {
            Some(row_port(ctx@.audio_out2.ports[handle]))
        } else {
            None
        }),
{
    match rows_get(&ctx.audio_out2.ports, handle) {
        Some(row) => Some(from_row(row)),
        None => None,
    }
}

/// Drop a port. A handle that is not known is no error.
pub open spec fn port_destroy(m: Machine, a: Seq<u64>) -> (Machine, u64) {
    (
        m.with_audio(
            AudioOut { ports: m.audio_out2.ports.remove(arg(a, 0)), ..m.audio_out2 },
        ),
        OK,
    )
}

/// `sceAudioOut2PortDestroy(port)`.
pub fn hle_port_destroy(ctx: &mut HleContext, args: &[u64]) -> (r: u64)
    ensures
        final(ctx)@ == port_destroy(old(ctx)@, args@).0,
        r == port_destroy(old(ctx)@, args@).1,
{
    rows_remove(&mut ctx.audio_out2.ports, get_arg(args, 0));
    OK
}

/// The state of a port, by the type in its handle: a personal port (type 2) has
/// the output 0x40 and one channel, any other the output 1 and two channels.
/// The volume reads as -1.
pub open spec fn port_state(handle: u64) -> Seq<u32> {
    if (handle >> 16) & 0xFF == 2 {
        seq![0x0001_0040u32, 0xFFFFu32, 0, 0, 0, 0, 0, 0]
    } else {
        seq![0x0002_0001u32, 0xFFFFu32, 0, 0, 0, 0, 0, 0]
    }
}

/// Write the state of a port.
pub open spec fn port_get_state(m: Machine, a: Seq<u64>) -> (Machine, u64) {
    if arg(a, 0) == 0 || arg(a, 1) == 0 {
        (m, SCE_ERROR_INVALID_ARGUMENT)
    } else {
        checked(
            m.put(arg(a, 1) as int, bytes_of(port_state(arg(a, 0)))),
            OK,
            SCE_ERROR_MEMORY_FAULT,
        )
    }
}

/// `sceAudioOut2PortGetState(handle, state)`.
pub fn hle_port_get_state(ctx: &mut HleContext, args: &[u64]) -> (r: u64)
    ensures
        final(ctx)@ == port_get_state(old(ctx)@, args@).0,
        r == port_get_state(old(ctx)@, args@).1,
{
    let handle: u64 = get_arg(args, 0);
    let state: u64 = get_arg(args, 1);
    if handle == 0 || state == 0 {
        return SCE_ERROR_INVALID_ARGUMENT;
    }
    if (handle >> 16) & 0xFF == 2 {
        write_words(ctx, state, &[0x0001_0040, 0xFFFF, 0, 0, 0, 0, 0, 0])
    } else {
        write_words(ctx, state, &[0x0002_0001, 0xFFFF, 0, 0, 0, 0, 0, 0])
    }
}

/// Write the speakers: one device, two channels, 48000 Hz.
pub open spec fn get_speaker_info(m: Machine, a: Seq<u64>) -> (Machine, u64) {
    if arg(a, 0) == 0 {
        (m, SCE_ERROR_INVALID_ARGUMENT)
    } else {
        checked(
            m.put(
                arg(a, 0) as int,
                bytes_of(seq![1u32, 2u32, 48000u32, 0, 0, 0, 0, 0, 0, 0, 0, 0, 0, 0, 0, 0]),
            ),
            OK,
            SCE_ERROR_MEMORY_FAULT,
        )
    }
}

/// `sceAudioOut2GetSpeakerInfo(info)`.
pub fn hle_get_speaker_info(ctx: &mut HleContext, args: &[u64]) -> (r: u64)
    ensures
        final(ctx)@ == get_speaker_info(old(ctx)@, args@).0,
        r == get_speaker_info(old(ctx)@, args@).1,
{
    let info: u64 = get_arg(args, 0);
    if info == 0 {
        return SCE_ERROR_INVALID_ARGUMENT;
    }
    write_words(ctx, info, &[1, 2, 48000, 0, 0, 0, 0, 0, 0, 0, 0, 0, 0, 0, 0, 0])
}

/// The user ids that are known.
pub open spec fn known_user(id: u32) -> bool {
    id == 0 || id == 1 || id == 255 || id == 1000
}

/// Create a user and write its handle. Handles count up modulo 2^64.
pub open spec fn user_create(m: Machine, a: Seq<u64>) -> (Machine, u64) {
    let handle = m.audio_out2.next_user_handle.wrapping_add(1);
    let m1 = m.with_audio(AudioOut { next_user_handle: handle, ..m.audio_out2 });
    if !known_user(lo(arg(a, 0))) || arg(a, 1) == 0 {
        (m, SCE_ERROR_INVALID_ARGUMENT)
    } else {
        checked(m1.put_u64(arg(a, 1) as int, handle), OK, SCE_ERROR_MEMORY_FAULT)
    }
}

/// `sceAudioOut2UserCreate(userId, out)`.
pub fn hle_user_create(ctx: &mut HleContext, args: &[u64]) -> (r: u64)
    ensures
        final(ctx)@ == user_create(old(ctx)@, args@).0,
        r == user_create(old(ctx)@, args@).1,
{
    let id: u32 = lo32(get_arg(args, 0));
    let out: u64 = get_arg(args, 1);
    if !(id == 0 || id == 1 || id == 255 || id == 1000) || out == 0 {
        return SCE_ERROR_INVALID_ARGUMENT;
    }
    let handle: u64 = ctx.audio_out2.next_user_handle.wrapping_add(1);
    ctx.audio_out2.next_user_handle = handle;
    if ctx.mem.write_u64(out, 0, handle) {
        OK
    } else {
        SCE_ERROR_MEMORY_FAULT
    }
}

/// A row keeps a port whole.
pub proof fn law_row_keeps_port(p: PortAudio)
    ensures
        row_port(port_row(p)) == p,
{
    let c = p.channels;
    let r = p.sample_rate;
    let g = p.grain;
    assert((c as u64) as u32 == c && (r as u64) as u32 == r && (g as u64) as u32 == g);
}

/// Of two paced calls that follow one another, the second gets through no
/// earlier than one grain after the first. The clock has room for both.
pub proof fn law_pushes_are_a_grain_apart(m: Machine, context: u64, t1: u64, t2: u64)
    requires
        m.audio_out2.contexts.dom().contains(context),
        t1 + paced(m, context, t1).1 <= t2,
        t1 + paced(m, context, t1).1 + m.audio_out2.contexts[context].1 <= u64::MAX,
    ensures
        t2 + paced(paced(m, context, t1).0, context, t2).1 >= t1 + paced(m, context, t1).1
            + m.audio_out2.contexts[context].1,
{
}

/// A context that has been quiet for a grain does not make its caller wait, and
/// neither does one that was destroyed.
pub proof fn law_quiet_context_does_not_wait(m: Machine, a: Seq<u64>, context: u64, now: u64)
    ensures
        m.audio_out2.contexts[context].2 <= now ==> paced(m, context, now).1 == 0,
        paced(context_destroy(m, a).0, arg(a, 0), now) == (context_destroy(m, a).0, 0u64),
{
}

/// Destroying a context destroys its ports and no others, and nothing plays for
/// it any more.
pub proof fn law_destroy_takes_its_ports(m: Machine, a: Seq<u64>, k: u64)
    ensures
        context_destroy(m, a).0.audio_out2.ports.dom().contains(k)
            <==> m.audio_out2.ports.dom().contains(k) && m.audio_out2.ports[k].0 != arg(a, 0),
        context_destroy(m, a).0.audio_out2.ports.dom().contains(k) ==> context_destroy(
            m,
            a,
        ).0.audio_out2.ports[k] == m.audio_out2.ports[k],
        !plays(context_destroy(m, a).0, arg(a, 0), k),
{
}

/// A port that was just created plays nothing; once its samples are known, a
/// push of its context plays them when they can be read.
pub proof fn law_port_plays_its_samples(m: Machine, a: Seq<u64>, b: Seq<u64>, k: u64)
    requires
        port_create(m, a).1 == OK,
        k == port_handle(lo(arg(a, 0)), m.audio_out2.next_port_id.wrapping_add(1)),
        arg(b, 0) == k,
        arg(b, 1) != 0,
        arg(b, 2) != 0,
    ensures
        !plays(port_create(m, a).0, new_port(m, a).context, k),
        port_set_attributes(port_create(m, a).0, b).0.audio_out2.ports.dom().contains(k),
        row_port(port_set_attributes(port_create(m, a).0, b).0.audio_out2.ports[k]) == (PortAudio {
            pcm_ptr: pcm_pointer(
                port_create(m, a).0.mem,
                arg(b, 1),
                0,
                attribute_count(arg(b, 2)) as nat,
                0,
            ),
            ..new_port(m, a)
        }),
{
    law_row_keeps_port(new_port(m, a));
    let kind = lo(arg(a, 0)) as u64;
    let number = (m.audio_out2.next_port_id.wrapping_add(1) & 0xFF) as u64;
    assert(0x2000_0000u64 | (kind << 16) | number != 0) by (bit_vector);
}

/// The exports of libSceAudioOut2.
#[derive(Clone, Copy, PartialEq, Eq, Structural, Debug)]
pub enum AudioOut2Export {
    Accept,
    ContextResetParam,
    ContextQueryMemory,
    ContextCreate,
    ContextDestroy,
    ContextPush,
    ContextAdvance,
    PortSetAttributes,
    ContextGetQueueLevel,
    PortCreate,
    PortGetState,
    GetSpeakerInfo,
    PortDestroy,
    UserCreate,
}

impl Export for AudioOut2Export {
    open spec fn as_handler(self) -> Handler {
        Handler::AudioOut2(self)
    }

    fn handler(self) -> (r: Handler) {
        Handler::AudioOut2(self)
    }
}

/// Names and the exports that answer them.
pub const EXPORTS: [(&'static str, &'static str, AudioOut2Export); 15] = [
    ("libSceAudioOut2", "sceAudioOut2Initialize", AudioOut2Export::Accept),
    ("libSceAudioOut2", "sceAudioOut2ContextResetParam", AudioOut2Export::ContextResetParam),
    ("libSceAudioOut2", "sceAudioOut2ContextQueryMemory", AudioOut2Export::ContextQueryMemory),
    ("libSceAudioOut2", "sceAudioOut2ContextCreate", AudioOut2Export::ContextCreate),
    ("libSceAudioOut2", "sceAudioOut2ContextDestroy", AudioOut2Export::ContextDestroy),
    ("libSceAudioOut2", "sceAudioOut2ContextPush", AudioOut2Export::ContextPush),
    ("libSceAudioOut2", "sceAudioOut2ContextAdvance", AudioOut2Export::ContextAdvance),
    ("libSceAudioOut2", "sceAudioOut2PortSetAttributes", AudioOut2Export::PortSetAttributes),
    ("libSceAudioOut2", "sceAudioOut2ContextGetQueueLevel", AudioOut2Export::ContextGetQueueLevel),
    ("libSceAudioOut2", "sceAudioOut2PortCreate", AudioOut2Export::PortCreate),
    ("libSceAudioOut2", "sceAudioOut2PortGetState", AudioOut2Export::PortGetState),
    ("libSceAudioOut2", "sceAudioOut2GetSpeakerInfo", AudioOut2Export::GetSpeakerInfo),
    ("libSceAudioOut2", "sceAudioOut2PortDestroy", AudioOut2Export::PortDestroy),
    ("libSceAudioOut2", "sceAudioOut2UserDestroy", AudioOut2Export::Accept),
    ("libSceAudioOut2", "sceAudioOut2UserCreate", AudioOut2Export::UserCreate),
];

/// The registry with this library in it.
pub open spec fn registered(r: Registry) -> Registry {
    with_exports(r, EXPORTS@)
}

/// Register libSceAudioOut2.
pub fn register(registry: &mut HleRegistry)
    ensures
        final(registry)@ == registered(old(registry)@),
{
    registry.register_exports(&EXPORTS);
}

/// The answer to a push: what the ports in `order` play.
pub open spec fn plays_in_order(m: Machine, a: Seq<u64>, order: Seq<u64>, reply: Reply) -> bool {
    match reply {
        Reply::Push { context, audio } => context == arg(a, 0) && pushed(m, context, order, audio),
        _ => false,
    }
}

/// The answer to a push: everything that plays, in some order.
pub open spec fn plays_ports(m: Machine, a: Seq<u64>, reply: Reply) -> bool {
    exists|order: Seq<u64>| plays_in_order(m, a, order, reply)
}

/// What an export may do: `after` is the next machine and `reply` the answer. All
/// exports but a push have one outcome.
pub open spec fn answers(e: AudioOut2Export, m: Machine, a: Seq<u64>, after: Machine, reply: Reply) -> bool {
    match e {
        AudioOut2Export::Accept => answered((m, Reply::Return(OK)), after, reply),
        AudioOut2Export::ContextResetParam => answered(
            returns_value(context_reset_param(m, a)),
            after,
            reply,
        ),
        AudioOut2Export::ContextQueryMemory => answered(
            returns_value(context_query_memory(m, a)),
            after,
            reply,
        ),
        AudioOut2Export::ContextCreate => answered(
            returns_value(context_create(m, a)),
            after,
            reply,
        ),
        AudioOut2Export::ContextDestroy => answered(
            returns_value(context_destroy(m, a)),
            after,
            reply,
        ),
        AudioOut2Export::ContextPush => after == m && plays_ports(m, a, reply),
        AudioOut2Export::ContextAdvance => answered(
            (m, Reply::Pace { context: arg(a, 0) }),
            after,
            reply,
        ),
        AudioOut2Export::PortSetAttributes => answered(
            returns_value(port_set_attributes(m, a)),
            after,
            reply,
        ),
        AudioOut2Export::ContextGetQueueLevel => answered(
            returns_value(context_get_queue_level(m, a)),
            after,
            reply,
        ),
        AudioOut2Export::PortCreate => answered(returns_value(port_create(m, a)), after, reply),
        AudioOut2Export::PortGetState => answered(
            returns_value(port_get_state(m, a)),
            after,
            reply,
        ),
        AudioOut2Export::GetSpeakerInfo => answered(
            returns_value(get_speaker_info(m, a)),
            after,
            reply,
        ),
        AudioOut2Export::PortDestroy => answered(returns_value(port_destroy(m, a)), after, reply),
        AudioOut2Export::UserCreate => answered(returns_value(user_create(m, a)), after, reply),
    }
}

/// Call an export.
pub fn call(e: AudioOut2Export, ctx: &mut HleContext, args: &[u64]) -> (r: Outcome)
    ensures
        answers(e, old(ctx)@, args@, final(ctx)@, r@),
{
    match e {
        AudioOut2Export::Accept => Outcome::Return(hle_ok()),
        AudioOut2Export::ContextResetParam => Outcome::Return(hle_context_reset_param(ctx, args)),
        AudioOut2Export::ContextQueryMemory => Outcome::Return(hle_context_query_memory(ctx, args)),
        AudioOut2Export::ContextCreate => Outcome::Return(hle_context_create(ctx, args)),
        AudioOut2Export::ContextDestroy => Outcome::Return(hle_context_destroy(ctx, args)),
        AudioOut2Export::ContextPush => {
            let audio = hle_context_push(ctx, args);
            let ghost played = samples_of(audio@);
            let r = Outcome::Push { context: get_arg(args, 0), audio };
            proof {
                let order = choose|order: Seq<u64>| pushed(ctx@, arg(args@, 0), order, played);
                assert(r@ == Reply::Push { context: arg(args@, 0), audio: played });
                assert(pushed(old(ctx)@, arg(args@, 0), order, played));
                assert(plays_in_order(old(ctx)@, args@, order, r@));
            }
            r
        },
        AudioOut2Export::ContextAdvance => Outcome::Pace { context: get_arg(args, 0) },
        AudioOut2Export::PortSetAttributes => Outcome::Return(hle_port_set_attributes(ctx, args)),
        AudioOut2Export::ContextGetQueueLevel => Outcome::Return(
            hle_context_get_queue_level(ctx, args),
        ),
        AudioOut2Export::PortCreate => Outcome::Return(hle_port_create(ctx, args)),
        AudioOut2Export::PortGetState => Outcome::Return(hle_port_get_state(ctx, args)),
        AudioOut2Export::GetSpeakerInfo => Outcome::Return(hle_get_speaker_info(ctx, args)),
        AudioOut2Export::PortDestroy => Outcome::Return(hle_port_destroy(ctx, args)),
        AudioOut2Export::UserCreate => Outcome::Return(hle_user_create(ctx, args)),
    }
}

} // verus!
