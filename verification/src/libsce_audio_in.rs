//! libSceAudioIn: capture ports without a capture device.
//!
//! A port works as any port does and captures silence; the library says in its
//! own terms that no device is there.
use vstd::prelude::*;
use crate::agc::packet::{lo, lo32};
use crate::context::{arg, get_arg, HleContext, InPort, Machine, OK};
use crate::pace::{duration, duration_ns};
use crate::registry::{
    Export, Handler, HleRegistry, Outcome, Registry, Reply, returns_value, with_exports,
};

pub mod laws;

verus! {

pub const SCE_AUDIO_IN_ERROR_INVALID_HANDLE: u64 = 0x8026_0101;

pub const SCE_AUDIO_IN_ERROR_INVALID_FREQ: u64 = 0x8026_0103;

pub const SCE_AUDIO_IN_ERROR_INVALID_POINTER: u64 = 0x8026_0105;

pub const SCE_AUDIO_IN_ERROR_INVALID_PARAM: u64 = 0x8026_0106;

pub const SCE_AUDIO_IN_ERROR_PORT_FULL: u64 = 0x8026_0107;

pub const SCE_AUDIO_IN_ERROR_NOT_OPENED: u64 = 0x8026_0109;

/// There is no microphone.
pub const SILENT_STATE_DEVICE_NONE: u64 = 1;

/// How many ports can be open at once.
pub const MAX_IN_PORTS: u64 = 8;

/// The bits that mark a handle of this library.
pub const HANDLE_TAG: u64 = 0x3000_0000;

/// The longest time that one capture takes: a tenth of a second.
pub const INPUT_MAX_SLEEP_NS: u64 = 100_000_000;

/// The most bytes that one capture writes.
pub const MAX_INPUT_BYTES: u64 = 1_048_576;

/// An answer that is due after `sleep_ns` nanoseconds.
#[derive(Clone, Copy, PartialEq, Eq, Structural, Debug)]
pub struct Delayed {
    pub code: u64,
    pub sleep_ns: u64,
}

/// `sceAudioInInit()`: nothing to prepare.
pub fn hle_init() -> (r: u64)
    ensures
        r == OK,
{
    OK
}

/// The channels of a format: 0 is one channel of 16 bits, 2 is two of them. A
/// guess at any other format would capture the wrong number of bytes.
pub open spec fn channels_of(param: u64) -> Option<u32> {
    if param == 0 {
        Some(1)
    } else if param == 2 {
        Some(2)
    } else {
        None
    }
}

/// The channels of a format.
pub fn decode_channels(param: u64) -> (r: Option<u32>)
    ensures
        r == channels_of(param),
{
    if param == 0 {
        Some(1)
    } else if param == 2 {
        Some(2)
    } else {
        None
    }
}

/// The first free port number from `from` on.
pub open spec fn free_port(ports: Map<u64, InPort>, from: u64) -> Option<u64>
    decreases MAX_IN_PORTS - from,
{
    if from >= MAX_IN_PORTS {
        None
    } else if !ports.dom().contains(from) {
        Some(from)
    } else {
        free_port(ports, (from + 1) as u64)
    }
}

/// The handle of a port: the tag, the low bits of the port's type and its number.
/// The type is cut so that the handle is never taken for an error, whose bit 31 is
/// set.
pub open spec fn handle_of(kind: u64, port: u64) -> u64 {
    HANDLE_TAG | ((kind & 0x7FFF) << 16) | port
}

/// The port number of a handle.
pub open spec fn port_number(handle: u64) -> u64 {
    handle & 0xFFFF
}

/// Open a port: type, samples per capture, rate and format. A refused call takes
/// no port.
pub open spec fn open(m: Machine, a: Seq<u64>) -> (Machine, u64) {
    let channels = channels_of(arg(a, 5));
    let free = free_port(m.audio_in, 0);
    if channels is None {
        (m, SCE_AUDIO_IN_ERROR_INVALID_PARAM)
    } else if lo(arg(a, 4)) == 0 {
        (m, SCE_AUDIO_IN_ERROR_INVALID_FREQ)
    } else if lo(arg(a, 3)) == 0 {
        (m, SCE_AUDIO_IN_ERROR_INVALID_PARAM)
    } else if free is None {
        (m, SCE_AUDIO_IN_ERROR_PORT_FULL)
    } else {
        (
            Machine {
                audio_in: m.audio_in.insert(
                    free->0,
                    InPort {
                        grain: lo(arg(a, 3)),
                        period_ns: duration(lo(arg(a, 3)), lo(arg(a, 4))) as u64,
                        channels: channels->0,
                    },
                ),
                ..m
            },
            handle_of(arg(a, 1), free->0),
        )
    }
}

fn find_free(ctx: &HleContext) -> (r: Option<u64>)
    ensures
        r == free_port(ctx@.audio_in, 0),
{
    let mut id: u64 = 0;
    while id < MAX_IN_PORTS
        invariant
            id <= MAX_IN_PORTS,
            free_port(ctx@.audio_in, 0) == free_port(ctx@.audio_in, id),
        decreases MAX_IN_PORTS - id,
    {
        if !ctx.audio_in.contains(id) {
            return Some(id);
        }
        id += 1;
    }
    None
}

/// `sceAudioIn{Open,AsyncOpen,HqOpen}(userId, type, index, len, freq, param)`.
pub fn hle_open(ctx: &mut HleContext, args: &[u64]) -> (r: u64)
    ensures
        final(ctx)@ == open(old(ctx)@, args@).0,
        r == open(old(ctx)@, args@).1,
{
    let grain: u32 = lo32(get_arg(args, 3));
    let freq: u32 = lo32(get_arg(args, 4));
    let channels: u32 = match decode_channels(get_arg(args, 5)) {
        None => {
            return SCE_AUDIO_IN_ERROR_INVALID_PARAM;
        },
        Some(c) => c,
    };
    if freq == 0 {
        return SCE_AUDIO_IN_ERROR_INVALID_FREQ;
    }
    if grain == 0 {
        return SCE_AUDIO_IN_ERROR_INVALID_PARAM;
    }
    match find_free(ctx) {
        None => SCE_AUDIO_IN_ERROR_PORT_FULL,
        Some(id) => {
            let period_ns: u64 = duration_ns(grain, freq);
            ctx.audio_in.insert(id, InPort { grain, period_ns, channels });
            HANDLE_TAG | ((get_arg(args, 1) & 0x7FFF) << 16) | id
        },
    }
}

/// Close a port.
pub open spec fn close(m: Machine, a: Seq<u64>) -> (Machine, u64) {
    let id = port_number(arg(a, 0));
    if m.audio_in.dom().contains(id) {
        (Machine { audio_in: m.audio_in.remove(id), ..m }, OK)
    } else {
        (m, SCE_AUDIO_IN_ERROR_NOT_OPENED)
    }
}

/// `sceAudioInClose(handle)`.
pub fn hle_close(ctx: &mut HleContext, args: &[u64]) -> (r: u64)
    ensures
        final(ctx)@ == close(old(ctx)@, args@).0,
        r == close(old(ctx)@, args@).1,
{
    let id: u64 = get_arg(args, 0) & 0xFFFF;
    let ghost before = ctx@;
    if !ctx.audio_in.remove(id) {
        assert(before.audio_in.remove(id) =~= before.audio_in);
        return SCE_AUDIO_IN_ERROR_NOT_OPENED;
    }
    OK
}

/// `n` bytes of silence.
pub open spec fn silence(n: nat) -> Seq<u8> {
    Seq::new(n, |i: int| 0u8)
}

/// The bytes that one capture writes.
pub open spec fn capture_bytes(p: InPort) -> int {
    p.grain * p.channels * 2
}

/// Capture: fill the destination with silence and tell how many samples that
/// are, when they would have been captured.
pub open spec fn input(m: Machine, a: Seq<u64>) -> (Machine, Delayed) {
    let id = port_number(arg(a, 0));
    let port = m.audio_in[id];
    let n = capture_bytes(port);
    let (m1, ok) = m.put(arg(a, 1) as int, silence(n as nat));
    if !m.audio_in.dom().contains(id) {
        (m, Delayed { code: SCE_AUDIO_IN_ERROR_INVALID_HANDLE, sleep_ns: 0 })
    } else if arg(a, 1) == 0 {
        (m, Delayed { code: SCE_AUDIO_IN_ERROR_INVALID_POINTER, sleep_ns: 0 })
    } else if n > MAX_INPUT_BYTES {
        (m, Delayed { code: SCE_AUDIO_IN_ERROR_INVALID_PARAM, sleep_ns: 0 })
    } else if !ok {
        (m, Delayed { code: SCE_AUDIO_IN_ERROR_INVALID_POINTER, sleep_ns: 0 })
    } else {
        (
            m1,
            Delayed {
                code: port.grain as u64,
                sleep_ns: if port.period_ns < INPUT_MAX_SLEEP_NS {
                    port.period_ns
                } else {
                    INPUT_MAX_SLEEP_NS
                },
            },
        )
    }
}

fn zeros(n: u64) -> (r: Vec<u8>)
    requires
        n <= MAX_INPUT_BYTES,
    ensures
        r@ == silence(n as nat),
{
    let mut b: Vec<u8> = Vec::new();
    let mut i: u64 = 0;
    while i < n
        invariant
            i <= n,
            b@.len() == i,
            forall|j: int| 0 <= j < b@.len() ==> b@[j] == 0,
        decreases n - i,
    {
        b.push(0);
        i += 1;
    }
    assert(b@ =~= silence(n as nat));
    b
}

fn refused(code: u64) -> (r: Delayed)
    ensures
        r == (Delayed { code, sleep_ns: 0 }),
{
    Delayed { code, sleep_ns: 0 }
}

/// `sceAudioInInput(handle, dest)`.
pub fn hle_input(ctx: &mut HleContext, args: &[u64]) -> (r: Delayed)
    ensures
        final(ctx)@ == input(old(ctx)@, args@).0,
        r == input(old(ctx)@, args@).1,
{
    let dest: u64 = get_arg(args, 1);
    let port: InPort = match ctx.audio_in.get(get_arg(args, 0) & 0xFFFF) {
        None => {
            return refused(SCE_AUDIO_IN_ERROR_INVALID_HANDLE);
        },
        Some(p) => *p,
    };
    if dest == 0 {
        return refused(SCE_AUDIO_IN_ERROR_INVALID_POINTER);
    }
    proof {
        let g = port.grain as int;
        let c = port.channels as int;
        assert(0 <= g * c <= 0xFFFF_FFFF * 0xFFFF_FFFF) by (nonlinear_arith)
            requires
                0 <= g <= 0xFFFF_FFFF,
                0 <= c <= 0xFFFF_FFFF,
        ;
    }
    let n: u128 = port.grain as u128 * port.channels as u128 * 2;
    if n > MAX_INPUT_BYTES as u128 {
        return refused(SCE_AUDIO_IN_ERROR_INVALID_PARAM);
    }
    let quiet = zeros(n as u64);
    if !ctx.mem.write(dest, 0, quiet.as_slice()) {
        return refused(SCE_AUDIO_IN_ERROR_INVALID_POINTER);
    }
    let sleep_ns: u64 = if port.period_ns < INPUT_MAX_SLEEP_NS {
        port.period_ns
    } else {
        INPUT_MAX_SLEEP_NS
    };
    Delayed { code: port.grain as u64, sleep_ns }
}

/// `sceAudioInGetSilentState(handle)`: an open port is silent because there is
/// no device.
pub fn hle_get_silent_state(ctx: &HleContext, args: &[u64]) -> (r: u64)
    ensures
        r == (if ctx@.audio_in.dom().contains(port_number(arg(args@, 0))) {
            SILENT_STATE_DEVICE_NONE
        } else {
            SCE_AUDIO_IN_ERROR_INVALID_HANDLE
        }),
{
    if !ctx.audio_in.contains(get_arg(args, 0) & 0xFFFF) {
        return SCE_AUDIO_IN_ERROR_INVALID_HANDLE;
    }
    SILENT_STATE_DEVICE_NONE
}

proof fn lemma_free_port(ports: Map<u64, InPort>, from: u64)
    ensures
        free_port(ports, from) matches Some(p) ==> from <= p < MAX_IN_PORTS && !ports.dom().contains(p)
            && forall|q: u64| from <= q < p ==> #[trigger] ports.dom().contains(q),
        free_port(ports, from) is None ==> forall|p: u64|
            from <= p < MAX_IN_PORTS ==> #[trigger] ports.dom().contains(p),
    decreases MAX_IN_PORTS - from,
{
    if from < MAX_IN_PORTS && ports.dom().contains(from) {
        lemma_free_port(ports, (from + 1) as u64);
    }
}

proof fn lemma_handle(kind: u64, port: u64)
    requires
        port < MAX_IN_PORTS,
    ensures
        port_number(handle_of(kind, port)) == port,
        handle_of(kind, port) & 0xFFFF_0000 == HANDLE_TAG | ((kind & 0x7FFF) << 16),
        0 < handle_of(kind, port) < 0x8000_0000,
{
    assert(port < 8 ==> {
        let h = 0x3000_0000u64 | ((kind & 0x7FFF) << 16) | port;
        &&& h & 0xFFFF == port
        &&& h & 0xFFFF_0000 == 0x3000_0000u64 | ((kind & 0x7FFF) << 16)
        &&& 0 < h < 0x8000_0000
    }) by (bit_vector);
}

/// A call that takes a port answers with a positive handle, whatever type it asks
/// for. A call that takes none answers with an error, which is negative.
pub proof fn law_open_is_positive(m: Machine, a: Seq<u64>)
    ensures
        open(m, a).0 != m ==> 0 < open(m, a).1 < 0x8000_0000,
        open(m, a).0 == m ==> 0x8000_0000 <= open(m, a).1 <= 0xFFFF_FFFF,
{
    lemma_free_port(m.audio_in, 0);
    if let Some(p) = free_port(m.audio_in, 0) {
        lemma_handle(arg(a, 1), p);
        if open(m, a).1 == handle_of(arg(a, 1), p) {
            assert(open(m, a).0.audio_in.dom().contains(p));
        }
    }
}

/// A handle that was opened names the lowest port that was free and carries the
/// low bits of the type it was opened with; closing it gives the port back, once.
pub proof fn law_open_close(m: Machine, a: Seq<u64>, b: Seq<u64>)
    requires
        open(m, a).0 != m,
        arg(b, 0) == open(m, a).1,
    ensures
        port_number(open(m, a).1) < MAX_IN_PORTS,
        !m.audio_in.dom().contains(port_number(open(m, a).1)),
        forall|p: u64|
            p < port_number(open(m, a).1) ==> #[trigger] m.audio_in.dom().contains(p),
        open(m, a).1 & 0xFFFF_0000 == HANDLE_TAG | ((arg(a, 1) & 0x7FFF) << 16),
        close(open(m, a).0, b) == (m, OK),
        close(close(open(m, a).0, b).0, b).1 == SCE_AUDIO_IN_ERROR_NOT_OPENED,
        input(close(open(m, a).0, b).0, b).1.code == SCE_AUDIO_IN_ERROR_INVALID_HANDLE,
{
    lemma_free_port(m.audio_in, 0);
    let p = free_port(m.audio_in, 0)->0;
    lemma_handle(arg(a, 1), p);
    assert(m.audio_in.insert(p, open(m, a).0.audio_in[p]).remove(p) =~= m.audio_in);
}

/// At most [`MAX_IN_PORTS`] ports are open, whatever was asked for.
pub proof fn law_ports_are_bounded(m: Machine, a: Seq<u64>)
    requires
        forall|p: u64| #[trigger] m.audio_in.dom().contains(p) ==> p < MAX_IN_PORTS,
    ensures
        forall|p: u64| #[trigger] open(m, a).0.audio_in.dom().contains(p) ==> p < MAX_IN_PORTS,
        forall|p: u64| #[trigger] close(m, a).0.audio_in.dom().contains(p) ==> p < MAX_IN_PORTS,
{
    lemma_free_port(m.audio_in, 0);
}

/// The exports of libSceAudioIn.
#[derive(Clone, Copy, PartialEq, Eq, Structural, Debug)]
pub enum AudioInExport {
    Init,
    Open,
    Close,
    Input,
    GetSilentState,
}

impl Export for AudioInExport {
    open spec fn as_handler(self) -> Handler {
        Handler::AudioIn(self)
    }

    fn handler(self) -> (r: Handler) {
        Handler::AudioIn(self)
    }
}

/// Names and the exports that answer them.
pub const EXPORTS: [(&'static str, &'static str, AudioInExport); 7] = [
    ("libSceAudioIn", "sceAudioInInit", AudioInExport::Init),
    ("libSceAudioIn", "sceAudioInOpen", AudioInExport::Open),
    ("libSceAudioIn", "sceAudioInAsyncOpen", AudioInExport::Open),
    ("libSceAudioIn", "sceAudioInHqOpen", AudioInExport::Open),
    ("libSceAudioIn", "sceAudioInClose", AudioInExport::Close),
    ("libSceAudioIn", "sceAudioInInput", AudioInExport::Input),
    ("libSceAudioIn", "sceAudioInGetSilentState", AudioInExport::GetSilentState),
];

/// The registry with this library in it.
pub open spec fn registered(r: Registry) -> Registry {
    with_exports(r, EXPORTS@)
}

/// Register libSceAudioIn.
pub fn register(registry: &mut HleRegistry)
    ensures
        final(registry)@ == registered(old(registry)@),
{
    registry.register_exports(&EXPORTS);
}

/// What an export does: the next machine and the answer.
pub open spec fn effect(e: AudioInExport, m: Machine, a: Seq<u64>) -> (Machine, Reply) {
    match e {
        AudioInExport::Init => (m, Reply::Return(OK)),
        AudioInExport::Open => returns_value(open(m, a)),
        AudioInExport::Close => returns_value(close(m, a)),
        AudioInExport::Input => (input(m, a).0, Reply::Delayed(input(m, a).1)),
        AudioInExport::GetSilentState => (
            m,
            Reply::Return(
                if m.audio_in.dom().contains(port_number(arg(a, 0))) {
                    SILENT_STATE_DEVICE_NONE
                } else {
                    SCE_AUDIO_IN_ERROR_INVALID_HANDLE
                },
            ),
        ),
    }
}

/// Call an export.
pub fn call(e: AudioInExport, ctx: &mut HleContext, args: &[u64]) -> (r: Outcome)
    ensures
        final(ctx)@ == effect(e, old(ctx)@, args@).0,
        r@ == effect(e, old(ctx)@, args@).1,
{
    match e {
        AudioInExport::Init => Outcome::Return(hle_init()),
        AudioInExport::Open => Outcome::Return(hle_open(ctx, args)),
        AudioInExport::Close => Outcome::Return(hle_close(ctx, args)),
        AudioInExport::Input => Outcome::Delayed(hle_input(ctx, args)),
        AudioInExport::GetSilentState => Outcome::Return(hle_get_silent_state(ctx, args)),
    }
}

} // verus!
