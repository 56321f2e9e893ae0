//! libSceErrorDialog and libSceVrSetupDialog: dialogs that complete at once.
//!
//! There is no surface to show a dialog on. Opening one finishes it, so that a
//! title that polls for completion goes on; the headset dialog never claims
//! that a headset was set up.
use vstd::prelude::*;
use crate::context::{arg, get_arg, HleContext, Machine, SmallState, OK};
use crate::mem::load_u32;
use crate::registry::{
    returns_value, with_exports, with_incomplete, Export, Handler, HleRegistry, Outcome, Registry,
    Reply,
};

verus! {

pub const STATUS_NONE: u32 = 0;

pub const STATUS_INITIALIZED: u32 = 1;

pub const STATUS_FINISHED: u32 = 3;

/// The machine with the error dialog in another state.
pub open spec fn with_error_status(m: Machine, status: u32) -> Machine {
    Machine { small: SmallState { error_dialog_status: status, ..m.small }, ..m }
}

/// The machine with the headset dialog in another state.
pub open spec fn with_vr_status(m: Machine, status: u32) -> Machine {
    Machine { small: SmallState { vr_setup_status: status, ..m.small }, ..m }
}

/// Make the error dialog ready.
pub open spec fn error_initialize(m: Machine, a: Seq<u64>) -> (Machine, u64) {
    (with_error_status(m, STATUS_INITIALIZED), OK)
}

/// `sceErrorDialogInitialize()`.
pub fn hle_error_initialize(ctx: &mut HleContext, args: &[u64]) -> (r: u64)
    ensures
        final(ctx)@ == error_initialize(old(ctx)@, args@).0,
        r == error_initialize(old(ctx)@, args@).1,
{
    ctx.kernel.small.error_dialog_status = STATUS_INITIALIZED;
    OK
}

/// The error that a title asks to have shown: the second word of the parameter
/// block, whose address wraps around. `None` when it cannot be read.
pub open spec fn reported(m: Machine, a: Seq<u64>) -> Option<u32> {
    if arg(a, 0) == 0 {
        None
    } else {
        load_u32(m.mem, arg(a, 0).wrapping_add(4) as int)
    }
}

/// The error that a call of `sceErrorDialogOpen` reports, for the log.
pub fn reported_error(ctx: &HleContext, args: &[u64]) -> (r: Option<u32>)
    ensures
        r == reported(ctx@, args@),
{
    let param: u64 = get_arg(args, 0);
    if param == 0 {
        None
    } else {
        ctx.mem.read_u32(param.wrapping_add(4), 0)
    }
}

/// Show the error dialog: it finishes at once.
pub open spec fn error_open(m: Machine, a: Seq<u64>) -> (Machine, u64) {
    (with_error_status(m, STATUS_FINISHED), OK)
}

/// `sceErrorDialogOpen(param)`.
pub fn hle_error_open(ctx: &mut HleContext, args: &[u64]) -> (r: u64)
    ensures
        final(ctx)@ == error_open(old(ctx)@, args@).0,
        r == error_open(old(ctx)@, args@).1,
{
    ctx.kernel.small.error_dialog_status = STATUS_FINISHED;
    OK
}

/// `sceErrorDialog{UpdateStatus,GetStatus}()`.
pub fn hle_error_status(ctx: &HleContext) -> (r: u64)
    ensures
        r == ctx@.small.error_dialog_status,
{
    ctx.kernel.small.error_dialog_status as u64
}

/// Put the error dialog away.
pub open spec fn error_close(m: Machine, a: Seq<u64>) -> (Machine, u64) {
    (with_error_status(m, STATUS_NONE), OK)
}

/// `sceErrorDialog{Close,Terminate}()`.
pub fn hle_error_close(ctx: &mut HleContext, args: &[u64]) -> (r: u64)
    ensures
        final(ctx)@ == error_close(old(ctx)@, args@).0,
        r == error_close(old(ctx)@, args@).1,
{
    ctx.kernel.small.error_dialog_status = STATUS_NONE;
    OK
}

/// Make the headset dialog ready.
pub open spec fn vr_initialize(m: Machine, a: Seq<u64>) -> (Machine, u64) {
    (with_vr_status(m, STATUS_INITIALIZED), OK)
}

/// `sceVrSetupDialogInitialize()`.
pub fn hle_vr_initialize(ctx: &mut HleContext, args: &[u64]) -> (r: u64)
    ensures
        final(ctx)@ == vr_initialize(old(ctx)@, args@).0,
        r == vr_initialize(old(ctx)@, args@).1,
{
    ctx.kernel.small.vr_setup_status = STATUS_INITIALIZED;
    OK
}

/// Show the headset dialog: it finishes at once.
pub open spec fn vr_open(m: Machine, a: Seq<u64>) -> (Machine, u64) {
    (with_vr_status(m, STATUS_FINISHED), OK)
}

/// `sceVrSetupDialogOpen(param)`.
pub fn hle_vr_open(ctx: &mut HleContext, args: &[u64]) -> (r: u64)
    ensures
        final(ctx)@ == vr_open(old(ctx)@, args@).0,
        r == vr_open(old(ctx)@, args@).1,
{
    ctx.kernel.small.vr_setup_status = STATUS_FINISHED;
    OK
}

/// `sceVrSetupDialog{UpdateStatus,GetStatus}()`.
pub fn hle_vr_status(ctx: &HleContext) -> (r: u64)
    ensures
        r == ctx@.small.vr_setup_status,
{
    ctx.kernel.small.vr_setup_status as u64
}

/// `sceVrSetupDialogGetResult(result)`: success, and the caller's struct is
/// left as it is.
pub fn hle_vr_get_result() -> (r: u64)
    ensures
        r == OK,
{
    OK
}

/// Put the headset dialog away.
pub open spec fn vr_close(m: Machine, a: Seq<u64>) -> (Machine, u64) {
    (with_vr_status(m, STATUS_NONE), OK)
}

/// `sceVrSetupDialog{Close,Terminate}()`.
pub fn hle_vr_close(ctx: &mut HleContext, args: &[u64]) -> (r: u64)
    ensures
        final(ctx)@ == vr_close(old(ctx)@, args@).0,
        r == vr_close(old(ctx)@, args@).1,
{
    ctx.kernel.small.vr_setup_status = STATUS_NONE;
    OK
}

/// Whatever was going on, a dialog that was opened is finished on the next poll
/// and gone once it is closed, and nothing else has changed. The two dialogs do
/// not see each other.
pub proof fn law_dialogs_finish_at_once(m: Machine, a: Seq<u64>, b: Seq<u64>)
    ensures
        error_open(m, a).0.small.error_dialog_status == STATUS_FINISHED,
        error_close(error_open(m, a).0, b).0 == with_error_status(m, STATUS_NONE),
        error_open(m, a).0.small.vr_setup_status == m.small.vr_setup_status,
        vr_open(m, a).0.small.vr_setup_status == STATUS_FINISHED,
        vr_close(vr_open(m, a).0, b).0 == with_vr_status(m, STATUS_NONE),
        vr_open(m, a).0.small.error_dialog_status == m.small.error_dialog_status,
{
}

/// The exports of libSceErrorDialog and libSceVrSetupDialog.
#[derive(Clone, Copy, PartialEq, Eq, Structural, Debug)]
pub enum DialogExport {
    ErrorInitialize,
    ErrorOpen,
    ErrorStatus,
    ErrorClose,
    VrInitialize,
    VrOpen,
    VrStatus,
    VrGetResult,
    VrClose,
}

impl Export for DialogExport {
    open spec fn as_handler(self) -> Handler {
        Handler::Dialog(self)
    }

    fn handler(self) -> (r: Handler) {
        Handler::Dialog(self)
    }
}

/// Names and the exports that answer them.
pub const EXPORTS: [(&'static str, &'static str, DialogExport); 12] = [
    ("libSceErrorDialog", "sceErrorDialogInitialize", DialogExport::ErrorInitialize),
    ("libSceErrorDialog", "sceErrorDialogOpen", DialogExport::ErrorOpen),
    ("libSceErrorDialog", "sceErrorDialogUpdateStatus", DialogExport::ErrorStatus),
    ("libSceErrorDialog", "sceErrorDialogGetStatus", DialogExport::ErrorStatus),
    ("libSceErrorDialog", "sceErrorDialogClose", DialogExport::ErrorClose),
    ("libSceErrorDialog", "sceErrorDialogTerminate", DialogExport::ErrorClose),
    ("libSceVrSetupDialog", "sceVrSetupDialogInitialize", DialogExport::VrInitialize),
    ("libSceVrSetupDialog", "sceVrSetupDialogOpen", DialogExport::VrOpen),
    ("libSceVrSetupDialog", "sceVrSetupDialogUpdateStatus", DialogExport::VrStatus),
    ("libSceVrSetupDialog", "sceVrSetupDialogGetStatus", DialogExport::VrStatus),
    ("libSceVrSetupDialog", "sceVrSetupDialogClose", DialogExport::VrClose),
    ("libSceVrSetupDialog", "sceVrSetupDialogTerminate", DialogExport::VrClose),
];

/// Names whose exports do less than they should, and what is missing.
pub const INCOMPLETE_EXPORTS: [(&'static str, &'static str, DialogExport, &'static str); 1] = [
    (
        "libSceVrSetupDialog",
        "sceVrSetupDialogGetResult",
        DialogExport::VrGetResult,
        "no VR device: reports OK without writing the undocumented SceVrSetupDialogResult layout, so the guest reads its own zeroed struct",
    ),
];

/// The registry with this library in it.
pub open spec fn registered(r: Registry) -> Registry {
    with_incomplete(with_exports(r, EXPORTS@), INCOMPLETE_EXPORTS@)
}

/// Register libSceErrorDialog and libSceVrSetupDialog.
pub fn register(registry: &mut HleRegistry)
    ensures
        final(registry)@ == registered(old(registry)@),
{
    registry.register_exports(&EXPORTS);
    registry.register_incompletes(&INCOMPLETE_EXPORTS);
}

/// What an export does: the next machine and the answer.
pub open spec fn effect(e: DialogExport, m: Machine, a: Seq<u64>) -> (Machine, Reply) {
    match e {
        DialogExport::ErrorInitialize => returns_value(error_initialize(m, a)),
        DialogExport::ErrorOpen => returns_value(error_open(m, a)),
        DialogExport::ErrorStatus => (m, Reply::Return(m.small.error_dialog_status as u64)),
        DialogExport::ErrorClose => returns_value(error_close(m, a)),
        DialogExport::VrInitialize => returns_value(vr_initialize(m, a)),
        DialogExport::VrOpen => returns_value(vr_open(m, a)),
        DialogExport::VrStatus => (m, Reply::Return(m.small.vr_setup_status as u64)),
        DialogExport::VrGetResult => (m, Reply::Return(OK)),
        DialogExport::VrClose => returns_value(vr_close(m, a)),
    }
}

/// Call an export.
pub fn call(e: DialogExport, ctx: &mut HleContext, args: &[u64]) -> (r: Outcome)
    ensures
        final(ctx)@ == effect(e, old(ctx)@, args@).0,
        r@ == effect(e, old(ctx)@, args@).1,
{
    match e {
        DialogExport::ErrorInitialize => Outcome::Return(hle_error_initialize(ctx, args)),
        DialogExport::ErrorOpen => Outcome::Return(hle_error_open(ctx, args)),
        DialogExport::ErrorStatus => Outcome::Return(hle_error_status(ctx)),
        DialogExport::ErrorClose => Outcome::Return(hle_error_close(ctx, args)),
        DialogExport::VrInitialize => Outcome::Return(hle_vr_initialize(ctx, args)),
        DialogExport::VrOpen => Outcome::Return(hle_vr_open(ctx, args)),
        DialogExport::VrStatus => Outcome::Return(hle_vr_status(ctx)),
        DialogExport::VrGetResult => Outcome::Return(hle_vr_get_result()),
        DialogExport::VrClose => Outcome::Return(hle_vr_close(ctx, args)),
    }
}

} // verus!
