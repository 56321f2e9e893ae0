//! libSceFiber: the calls that configure fibers without running one.
//!
//! The calls that transfer control are registered, and answered by whoever owns
//! the guest's threads before they reach this library.
use vstd::prelude::*;
use crate::bytes::{spec_u32_to_le_bytes, spec_u64_to_le_bytes};
use crate::context::{arg, get_arg, HleContext, Machine, SmallState, OK};
use crate::mem::{
    law_put_keeps_mapping, law_read_back_u32, law_read_elsewhere, load, load_u32, mapped, put,
    put_u32, put_u64, Mem,
};
use crate::registry::{
    Export, Handler, HleRegistry, Outcome, Registry, Reply, returns_value, with_exports,
};

pub mod laws;

verus! {

pub const FIBER_ERROR_NULL: u64 = 0x8059_0001;

pub const FIBER_ERROR_ALIGNMENT: u64 = 0x8059_0002;

pub const FIBER_ERROR_INVALID: u64 = 0x8059_0004;

pub const FIBER_ERROR_STATE: u64 = 0x8059_0006;

/// The mark of an initialised option block.
pub const FIBER_OPT_SIGNATURE: u32 = 0xBB40_E64D;

/// The mark at the start of a fiber.
pub const FIBER_MAGIC_START: u32 = 0xDEF1_649C;

/// The mark at the end of a fiber.
pub const FIBER_MAGIC_END: u32 = 0xB375_92A0;

/// The mark at the base of a fiber's stack.
pub const FIBER_STACK_GUARD: u64 = 0x7149_F2CA_7149_F2CA;

pub const FIBER_STATE_IDLE: u32 = 2;

pub const FIBER_STATE_TERMINATED: u32 = 3;

/// The bytes of a name that are kept; a terminator follows them.
pub const FIBER_NAME_BYTES: usize = 31;

/// The name field made of the bytes at `name`: all zero when they cannot be
/// read.
pub open spec fn name_field(m: Mem, name: u64) -> Seq<u8> {
    match load(m, name as int, FIBER_NAME_BYTES as nat) {
        Some(b) => b.push(0),
        None => Seq::new(32, |i: int| 0u8),
    }
}

/// The fiber's words up to its name.
pub open spec fn fiber_head(m: Mem, a: Seq<u64>) -> Mem {
    let f = arg(a, 0) as int;
    let m1 = put_u32(m, f, FIBER_MAGIC_START).0;
    let m2 = put_u32(m1, f + 0x04, FIBER_STATE_IDLE).0;
    let m3 = put_u64(m2, f + 0x08, arg(a, 2)).0;
    let m4 = put_u64(m3, f + 0x10, arg(a, 3)).0;
    let m5 = put_u64(m4, f + 0x18, arg(a, 4)).0;
    put_u64(m5, f + 0x20, arg(a, 5)).0
}

/// The fiber's name, flags and end mark.
pub open spec fn fiber_tail(m: Mem, a: Seq<u64>) -> Mem {
    let f = arg(a, 0) as int;
    let m1 = if arg(a, 1) != 0 {
        put(m, f + 0x28, name_field(m, arg(a, 1))).0
    } else {
        m
    };
    let m2 = put_u32(m1, f + 0x50, 0).0;
    put_u32(m2, f + 0x68, FIBER_MAGIC_END).0
}

/// Whether the stack guard fits into the context that the caller declared.
pub open spec fn guarded(a: Seq<u64>) -> bool {
    arg(a, 4) != 0 && arg(a, 5) >= 8
}

/// The stack guard at the base of the context.
pub open spec fn fiber_guard(m: Mem, a: Seq<u64>) -> Mem {
    if guarded(a) {
        put_u64(m, arg(a, 4) as int, FIBER_STACK_GUARD).0
    } else {
        m
    }
}

/// Write a fiber: its marks, its state, its configuration and its name, and
/// the guard of its stack. A field that cannot be written is left out.
pub open spec fn fiber_initialize(m: Machine, a: Seq<u64>) -> (Machine, u64) {
    if arg(a, 0) == 0 {
        (m, FIBER_ERROR_NULL)
    } else {
        (m.with_mem(fiber_guard(fiber_tail(fiber_head(m.mem, a), a), a)), OK)
    }
}

fn write_head(ctx: &mut HleContext, args: &[u64])
    ensures
        final(ctx)@ == old(ctx)@.with_mem(fiber_head(old(ctx)@.mem, args@)),
{
    let f: u64 = get_arg(args, 0);
    let _: bool = ctx.mem.write_u32(f, 0x00, FIBER_MAGIC_START);
    let _: bool = ctx.mem.write_u32(f, 0x04, FIBER_STATE_IDLE);
    let _: bool = ctx.mem.write_u64(f, 0x08, get_arg(args, 2));
    let _: bool = ctx.mem.write_u64(f, 0x10, get_arg(args, 3));
    let _: bool = ctx.mem.write_u64(f, 0x18, get_arg(args, 4));
    let _: bool = ctx.mem.write_u64(f, 0x20, get_arg(args, 5));
}

fn read_name(ctx: &HleContext, name: u64) -> (r: Vec<u8>)
    ensures
        r@ == name_field(ctx@.mem, name),
{
    match ctx.mem.read(name, 0, FIBER_NAME_BYTES) {
        Some(mut b) => {
            b.push(0);
            b
        },
        None => {
            let mut b: Vec<u8> = Vec::new();
            while b.len() < 32
                invariant
                    b@.len() <= 32,
                    forall|i: int| 0 <= i < b@.len() ==> b@[i] == 0,
                decreases 32 - b@.len(),
            {
                b.push(0);
            }
            assert(b@ =~= Seq::new(32, |i: int| 0u8));
            b
        },
    }
}

fn write_tail(ctx: &mut HleContext, args: &[u64])
    ensures
        final(ctx)@ == old(ctx)@.with_mem(fiber_tail(old(ctx)@.mem, args@)),
{
    let f: u64 = get_arg(args, 0);
    let name: u64 = get_arg(args, 1);
    if name != 0 {
        let field = read_name(ctx, name);
        let _: bool = ctx.mem.write(f, 0x28, field.as_slice());
    }
    let _: bool = ctx.mem.write_u32(f, 0x50, 0);
    let _: bool = ctx.mem.write_u32(f, 0x68, FIBER_MAGIC_END);
}

/// `sceFiberInitialize(fiber, name, entry, argument, context, size)`.
pub fn hle_fiber_initialize(ctx: &mut HleContext, args: &[u64]) -> (r: u64)
    ensures
        final(ctx)@ == fiber_initialize(old(ctx)@, args@).0,
        r == fiber_initialize(old(ctx)@, args@).1,
{
    if get_arg(args, 0) == 0 {
        return FIBER_ERROR_NULL;
    }
    write_head(ctx, args);
    write_tail(ctx, args);
    let context: u64 = get_arg(args, 4);
    if context != 0 && get_arg(args, 5) >= 8 {
        let _: bool = ctx.mem.write_u64(context, 0, FIBER_STACK_GUARD);
    }
    OK
}

/// Retire a fiber and drop what was saved of it. Only an idle fiber can be
/// retired, as far as its state can be read.
pub open spec fn fiber_finalize(m: Machine, a: Seq<u64>) -> (Machine, u64) {
    let f = arg(a, 0);
    let state = load_u32(m.mem, f + 0x04);
    if f == 0 {
        (m, FIBER_ERROR_NULL)
    } else if state is Some && state != Some(FIBER_STATE_IDLE) {
        (m, FIBER_ERROR_STATE)
    } else {
        let (m1, _) = m.put_u32(f + 0x04, FIBER_STATE_TERMINATED);
        (Machine { fibers: m.fibers.remove(f), ..m1 }, OK)
    }
}

/// `sceFiberFinalize(fiber)`.
pub fn hle_fiber_finalize(ctx: &mut HleContext, args: &[u64]) -> (r: u64)
    ensures
        final(ctx)@ == fiber_finalize(old(ctx)@, args@).0,
        r == fiber_finalize(old(ctx)@, args@).1,
{
    let f: u64 = get_arg(args, 0);
    if f == 0 {
        return FIBER_ERROR_NULL;
    }
    match ctx.mem.read_u32(f, 0x04) {
        Some(state) => {
            if state != FIBER_STATE_IDLE {
                return FIBER_ERROR_STATE;
            }
        },
        None => {},
    }
    let _: bool = ctx.mem.write_u32(f, 0x04, FIBER_STATE_TERMINATED);
    let _: bool = ctx.kernel.fibers.remove(f);
    OK
}

/// `sceFiber{Run,Switch,ReturnToThread,GetSelf}`: nothing is left to do here.
pub fn hle_fiber_transfer_placeholder() -> (r: u64)
    ensures
        r == OK,
{
    OK
}

/// Mark an option block. A block that cannot be written counts as misaligned.
pub open spec fn opt_param_init(m: Machine, a: Seq<u64>) -> (Machine, u64) {
    let (m1, ok) = m.put_u32(arg(a, 0) as int, FIBER_OPT_SIGNATURE);
    if arg(a, 0) == 0 {
        (m, FIBER_ERROR_NULL)
    } else if arg(a, 0) % 8 != 0 || !ok {
        (m, FIBER_ERROR_ALIGNMENT)
    } else {
        (m1, OK)
    }
}

/// `sceFiberOptParamInitialize(optParam)`.
pub fn hle_opt_param_init(ctx: &mut HleContext, args: &[u64]) -> (r: u64)
    ensures
        final(ctx)@ == opt_param_init(old(ctx)@, args@).0,
        r == opt_param_init(old(ctx)@, args@).1,
{
    let p: u64 = get_arg(args, 0);
    if p == 0 {
        return FIBER_ERROR_NULL;
    }
    if p % 8 != 0 {
        return FIBER_ERROR_ALIGNMENT;
    }
    if !ctx.mem.write_u32(p, 0, FIBER_OPT_SIGNATURE) {
        return FIBER_ERROR_ALIGNMENT;
    }
    OK
}

/// The machine with the context-size check on or off.
pub open spec fn with_size_check(m: Machine, v: u32) -> Machine {
    Machine { small: SmallState { fiber_context_size_check: v, ..m.small }, ..m }
}

/// Switch the context-size check on.
pub open spec fn start_context_size_check(m: Machine, a: Seq<u64>) -> (Machine, u64) {
    if arg(a, 0) != 0 {
        (m, FIBER_ERROR_INVALID)
    } else if m.small.fiber_context_size_check == 0 {
        (with_size_check(m, 1), OK)
    } else {
        (with_size_check(m, 1), FIBER_ERROR_STATE)
    }
}

/// `sceFiberStartContextSizeCheck(flags)`.
pub fn hle_start_context_size_check(ctx: &mut HleContext, args: &[u64]) -> (r: u64)
    ensures
        final(ctx)@ == start_context_size_check(old(ctx)@, args@).0,
        r == start_context_size_check(old(ctx)@, args@).1,
{
    if get_arg(args, 0) != 0 {
        return FIBER_ERROR_INVALID;
    }
    let was: u32 = ctx.kernel.small.fiber_context_size_check;
    ctx.kernel.small.fiber_context_size_check = 1;
    if was == 0 {
        OK
    } else {
        FIBER_ERROR_STATE
    }
}

/// Switch the context-size check off.
pub open spec fn stop_context_size_check(m: Machine, a: Seq<u64>) -> (Machine, u64) {
    if m.small.fiber_context_size_check == 1 {
        (with_size_check(m, 0), OK)
    } else {
        (with_size_check(m, 0), FIBER_ERROR_STATE)
    }
}

/// `sceFiberStopContextSizeCheck()`.
pub fn hle_stop_context_size_check(ctx: &mut HleContext, args: &[u64]) -> (r: u64)
    ensures
        final(ctx)@ == stop_context_size_check(old(ctx)@, args@).0,
        r == stop_context_size_check(old(ctx)@, args@).1,
{
    let was: u32 = ctx.kernel.small.fiber_context_size_check;
    ctx.kernel.small.fiber_context_size_check = 0;
    if was == 1 {
        OK
    } else {
        FIBER_ERROR_STATE
    }
}

/// The check goes on and off in turn: stopping undoes a start, and starting or
/// stopping twice is an error.
pub proof fn law_size_check_toggles(m: Machine, a: Seq<u64>, b: Seq<u64>)
    requires
        start_context_size_check(m, a).1 == OK,
        arg(b, 0) == 0,
    ensures
        stop_context_size_check(start_context_size_check(m, a).0, b) == (m, OK),
        start_context_size_check(start_context_size_check(m, a).0, b).1 == FIBER_ERROR_STATE,
        stop_context_size_check(m, b).1 == FIBER_ERROR_STATE,
{
}

/// A fiber whose state can be written is idle once it is initialised, as long
/// as its stack guard does not cover that state.
pub proof fn law_initialized_fiber_is_idle(m: Machine, a: Seq<u64>)
    requires
        arg(a, 0) != 0,
        mapped(m.mem, arg(a, 0) + 0x04, 4),
        guarded(a) ==> arg(a, 4) + 8 <= arg(a, 0) + 0x04 || arg(a, 0) + 0x08 <= arg(a, 4),
    ensures
        load_u32(fiber_initialize(m, a).0.mem, arg(a, 0) + 0x04) == Some(FIBER_STATE_IDLE),
        fiber_finalize(fiber_initialize(m, a).0, a).1 == OK,
{
    let f = arg(a, 0) as int;
    let s = f + 0x04;
    let m1 = put_u32(m.mem, f, FIBER_MAGIC_START).0;
    law_put_keeps_mapping(m.mem, f, spec_u32_to_le_bytes(FIBER_MAGIC_START));
    let m2 = put_u32(m1, s, FIBER_STATE_IDLE).0;
    crate::bytes::lemma_auto_spec_u32_to_from_le_bytes();
    crate::bytes::lemma_auto_spec_u64_to_from_le_bytes();
    law_read_back_u32(m1, s, FIBER_STATE_IDLE);
    let m3 = put_u64(m2, f + 0x08, arg(a, 2)).0;
    law_read_elsewhere(m2, f + 0x08, spec_u64_to_le_bytes(arg(a, 2)), s, 4);
    let m4 = put_u64(m3, f + 0x10, arg(a, 3)).0;
    law_read_elsewhere(m3, f + 0x10, spec_u64_to_le_bytes(arg(a, 3)), s, 4);
    let m5 = put_u64(m4, f + 0x18, arg(a, 4)).0;
    law_read_elsewhere(m4, f + 0x18, spec_u64_to_le_bytes(arg(a, 4)), s, 4);
    let m6 = put_u64(m5, f + 0x20, arg(a, 5)).0;
    law_read_elsewhere(m5, f + 0x20, spec_u64_to_le_bytes(arg(a, 5)), s, 4);
    let m7 = if arg(a, 1) != 0 {
        put(m6, f + 0x28, name_field(m6, arg(a, 1))).0
    } else {
        m6
    };
    law_read_elsewhere(m6, f + 0x28, name_field(m6, arg(a, 1)), s, 4);
    let m8 = put_u32(m7, f + 0x50, 0).0;
    law_read_elsewhere(m7, f + 0x50, spec_u32_to_le_bytes(0), s, 4);
    let m9 = put_u32(m8, f + 0x68, FIBER_MAGIC_END).0;
    law_read_elsewhere(m8, f + 0x68, spec_u32_to_le_bytes(FIBER_MAGIC_END), s, 4);
    if guarded(a) {
        law_read_elsewhere(m9, arg(a, 4) as int, spec_u64_to_le_bytes(FIBER_STACK_GUARD), s, 4);
    }
}

/// A fiber whose state can be read is retired at most once.
pub proof fn law_fiber_is_finalized_once(m: Machine, a: Seq<u64>)
    requires
        fiber_finalize(m, a).1 == OK,
        load_u32(m.mem, arg(a, 0) + 0x04) is Some,
    ensures
        fiber_finalize(fiber_finalize(m, a).0, a).1 == FIBER_ERROR_STATE,
{
    crate::bytes::lemma_auto_spec_u32_to_from_le_bytes();
    law_read_back_u32(m.mem, arg(a, 0) + 0x04, FIBER_STATE_TERMINATED);
}

/// The exports of libSceFiber.
#[derive(Clone, Copy, PartialEq, Eq, Structural, Debug)]
pub enum FiberExport {
    OptParamInit,
    StartContextSizeCheck,
    StopContextSizeCheck,
    FiberInitialize,
    FiberFinalize,
    FiberTransferPlaceholder,
}

impl Export for FiberExport {
    open spec fn as_handler(self) -> Handler {
        Handler::Fiber(self)
    }

    fn handler(self) -> (r: Handler) {
        Handler::Fiber(self)
    }
}

/// Names and the exports that answer them.
pub const EXPORTS: [(&'static str, &'static str, FiberExport); 10] = [
    ("libSceFiber", "sceFiberOptParamInitialize", FiberExport::OptParamInit),
    ("libSceFiber", "sceFiberStartContextSizeCheck", FiberExport::StartContextSizeCheck),
    ("libSceFiber", "sceFiberStopContextSizeCheck", FiberExport::StopContextSizeCheck),
    ("libSceFiber", "_sceFiberInitializeImpl", FiberExport::FiberInitialize),
    ("libSceFiber", "sceFiberInitialize", FiberExport::FiberInitialize),
    ("libSceFiber", "sceFiberFinalize", FiberExport::FiberFinalize),
    ("libSceFiber", "sceFiberRun", FiberExport::FiberTransferPlaceholder),
    ("libSceFiber", "sceFiberSwitch", FiberExport::FiberTransferPlaceholder),
    ("libSceFiber", "sceFiberReturnToThread", FiberExport::FiberTransferPlaceholder),
    ("libSceFiber", "sceFiberGetSelf", FiberExport::FiberTransferPlaceholder),
];

/// The registry with this library in it.
pub open spec fn registered(r: Registry) -> Registry {
    with_exports(r, EXPORTS@)
}

/// Register libSceFiber.
pub fn register(registry: &mut HleRegistry)
    ensures
        final(registry)@ == registered(old(registry)@),
{
    registry.register_exports(&EXPORTS);
}

/// What an export does: the next machine and the answer.
pub open spec fn effect(e: FiberExport, m: Machine, a: Seq<u64>) -> (Machine, Reply) {
    match e {
        FiberExport::OptParamInit => returns_value(opt_param_init(m, a)),
        FiberExport::StartContextSizeCheck => returns_value(start_context_size_check(m, a)),
        FiberExport::StopContextSizeCheck => returns_value(stop_context_size_check(m, a)),
        FiberExport::FiberInitialize => returns_value(fiber_initialize(m, a)),
        FiberExport::FiberFinalize => returns_value(fiber_finalize(m, a)),
        FiberExport::FiberTransferPlaceholder => (m, Reply::Return(OK)),
    }
}

/// Call an export.
pub fn call(e: FiberExport, ctx: &mut HleContext, args: &[u64]) -> (r: Outcome)
    ensures
        final(ctx)@ == effect(e, old(ctx)@, args@).0,
        r@ == effect(e, old(ctx)@, args@).1,
{
    match e {
        FiberExport::OptParamInit => Outcome::Return(hle_opt_param_init(ctx, args)),
        FiberExport::StartContextSizeCheck => Outcome::Return(
            hle_start_context_size_check(ctx, args),
        ),
        FiberExport::StopContextSizeCheck => Outcome::Return(
            hle_stop_context_size_check(ctx, args),
        ),
        FiberExport::FiberInitialize => Outcome::Return(hle_fiber_initialize(ctx, args)),
        FiberExport::FiberFinalize => Outcome::Return(hle_fiber_finalize(ctx, args)),
        FiberExport::FiberTransferPlaceholder => Outcome::Return(hle_fiber_transfer_placeholder()),
    }
}

} // verus!
