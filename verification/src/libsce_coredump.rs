//! libSceCoredump: the crash handler that a title registers.
//!
//! The handler is recorded and never invoked.
use vstd::prelude::*;
use crate::context::{arg, get_arg, HleContext, Machine, SmallState, OK};
use crate::registry::{
    Export, Handler, HleRegistry, Outcome, Registry, Reply, returns_value, with_exports,
};

verus! {

/// Record the handler and its context.
pub open spec fn register_handler(m: Machine, a: Seq<u64>) -> (Machine, u64) {
    (
        Machine {
            small: SmallState {
                coredump_handler: arg(a, 0),
                coredump_handler_context: arg(a, 1),
                ..m.small
            },
            ..m
        },
        OK,
    )
}

/// `sceCoredumpRegisterCoredumpHandler(handler, context)`.
pub fn hle_register_handler(ctx: &mut HleContext, args: &[u64]) -> (r: u64)
    ensures
        final(ctx)@ == register_handler(old(ctx)@, args@).0,
        r == register_handler(old(ctx)@, args@).1,
{
    ctx.kernel.small.coredump_handler = get_arg(args, 0);
    ctx.kernel.small.coredump_handler_context = get_arg(args, 1);
    OK
}

/// Forget the handler and its context.
pub open spec fn unregister_handler(m: Machine, a: Seq<u64>) -> (Machine, u64) {
    (
        Machine {
            small: SmallState { coredump_handler: 0, coredump_handler_context: 0, ..m.small },
            ..m
        },
        OK,
    )
}

/// `sceCoredumpUnregisterCoredumpHandler()`.
pub fn hle_unregister_handler(ctx: &mut HleContext, args: &[u64]) -> (r: u64)
    ensures
        final(ctx)@ == unregister_handler(old(ctx)@, args@).0,
        r == unregister_handler(old(ctx)@, args@).1,
{
    ctx.kernel.small.coredump_handler = 0;
    ctx.kernel.small.coredump_handler_context = 0;
    OK
}

/// `sceCoredumpWriteUserData(data, size)`: accepted and not kept, whether or
/// not the data can be read; the crash path never fails here.
pub fn hle_write_user_data() -> (r: u64)
    ensures
        r == OK,
{
    OK
}

/// Registering keeps exactly the last handler, and unregistering leaves nothing
/// of it.
pub proof fn law_last_handler_wins(m: Machine, a: Seq<u64>, b: Seq<u64>)
    ensures
        register_handler(register_handler(m, a).0, b) == register_handler(m, b),
        unregister_handler(register_handler(m, a).0, b) == unregister_handler(m, b),
{
}

/// The exports of libSceCoredump.
#[derive(Clone, Copy, PartialEq, Eq, Structural, Debug)]
pub enum CoredumpExport {
    RegisterHandler,
    UnregisterHandler,
    WriteUserData,
}

impl Export for CoredumpExport {
    open spec fn as_handler(self) -> Handler {
        Handler::Coredump(self)
    }

    fn handler(self) -> (r: Handler) {
        Handler::Coredump(self)
    }
}

/// Names and the exports that answer them.
pub const EXPORTS: [(&'static str, &'static str, CoredumpExport); 3] = [
    ("libSceCoredump", "sceCoredumpRegisterCoredumpHandler", CoredumpExport::RegisterHandler),
    ("libSceCoredump", "sceCoredumpUnregisterCoredumpHandler", CoredumpExport::UnregisterHandler),
    ("libSceCoredump", "sceCoredumpWriteUserData", CoredumpExport::WriteUserData),
];

/// The registry with this library in it.
pub open spec fn registered(r: Registry) -> Registry {
    with_exports(r, EXPORTS@)
}

/// Register libSceCoredump.
pub fn register(registry: &mut HleRegistry)
    ensures
        final(registry)@ == registered(old(registry)@),
{
    registry.register_exports(&EXPORTS);
}

/// What an export does: the next machine and the answer.
pub open spec fn effect(e: CoredumpExport, m: Machine, a: Seq<u64>) -> (Machine, Reply) {
    match e {
        CoredumpExport::RegisterHandler => returns_value(register_handler(m, a)),
        CoredumpExport::UnregisterHandler => returns_value(unregister_handler(m, a)),
        CoredumpExport::WriteUserData => (m, Reply::Return(OK)),
    }
}

/// Call an export.
pub fn call(e: CoredumpExport, ctx: &mut HleContext, args: &[u64]) -> (r: Outcome)
    ensures
        final(ctx)@ == effect(e, old(ctx)@, args@).0,
        r@ == effect(e, old(ctx)@, args@).1,
{
    match e {
        CoredumpExport::RegisterHandler => Outcome::Return(hle_register_handler(ctx, args)),
        CoredumpExport::UnregisterHandler => Outcome::Return(hle_unregister_handler(ctx, args)),
        CoredumpExport::WriteUserData => Outcome::Return(hle_write_user_data()),
    }
}

} // verus!
