//! libSceImeDialog: the on-screen keyboard.
//!
//! There is no keyboard to show, so the dialog finishes at once as cancelled by
//! the user, and the title keeps the text it had.
use vstd::prelude::*;
use crate::context::{arg, get_arg, HleContext, Machine, SmallState, OK};
use crate::registry::{
    Export, Handler, HleRegistry, Outcome, Registry, Reply, returns_value, with_exports,
};

verus! {

pub const IME_ERROR_INVALID_ADDRESS: u64 = 0x80BC_0031;

pub const STATUS_NONE: u32 = 0;

pub const STATUS_FINISHED: u32 = 2;

pub const END_STATUS_USER_CANCELED: u32 = 1;

pub const END_STATUS_ABORTED: u32 = 2;

pub const PANEL_WIDTH: u32 = 1920;

pub const PANEL_HEIGHT: u32 = 480;

/// The machine with the dialog finished in the given way.
pub open spec fn finished(m: Machine, end: u32) -> Machine {
    Machine { small: SmallState { ime_status: STATUS_FINISHED, ime_end_status: end, ..m.small }, ..m }
}

/// Open the dialog.
pub open spec fn init(m: Machine, a: Seq<u64>) -> (Machine, u64) {
    if arg(a, 0) == 0 {
        (m, IME_ERROR_INVALID_ADDRESS)
    } else {
        (finished(m, END_STATUS_USER_CANCELED), OK)
    }
}

/// `sceImeDialogInit(param, extended)`.
pub fn hle_init(ctx: &mut HleContext, args: &[u64]) -> (r: u64)
    ensures
        final(ctx)@ == init(old(ctx)@, args@).0,
        r == init(old(ctx)@, args@).1,
{
    if get_arg(args, 0) == 0 {
        return IME_ERROR_INVALID_ADDRESS;
    }
    ctx.kernel.small.ime_end_status = END_STATUS_USER_CANCELED;
    ctx.kernel.small.ime_status = STATUS_FINISHED;
    OK
}

/// `sceImeDialogGetStatus()`.
pub fn hle_get_status(ctx: &HleContext) -> (r: u64)
    ensures
        r == ctx@.small.ime_status,
{
    ctx.kernel.small.ime_status as u64
}

/// Write how the dialog ended.
pub open spec fn get_result(m: Machine, a: Seq<u64>) -> (Machine, u64) {
    let (m1, ok) = m.put_u32(arg(a, 0) as int, m.small.ime_end_status);
    if arg(a, 0) == 0 || !ok {
        (m, IME_ERROR_INVALID_ADDRESS)
    } else {
        (m1, OK)
    }
}

/// `sceImeDialogGetResult(result)`.
pub fn hle_get_result(ctx: &mut HleContext, args: &[u64]) -> (r: u64)
    ensures
        final(ctx)@ == get_result(old(ctx)@, args@).0,
        r == get_result(old(ctx)@, args@).1,
{
    let result: u64 = get_arg(args, 0);
    if result == 0 {
        return IME_ERROR_INVALID_ADDRESS;
    }
    let end: u32 = ctx.kernel.small.ime_end_status;
    if !ctx.mem.write_u32(result, 0, end) {
        return IME_ERROR_INVALID_ADDRESS;
    }
    OK
}

/// Finish the dialog as aborted.
pub open spec fn abort(m: Machine, a: Seq<u64>) -> (Machine, u64) {
    (finished(m, END_STATUS_ABORTED), OK)
}

/// `sceImeDialogAbort()`.
pub fn hle_abort(ctx: &mut HleContext, args: &[u64]) -> (r: u64)
    ensures
        final(ctx)@ == abort(old(ctx)@, args@).0,
        r == abort(old(ctx)@, args@).1,
{
    ctx.kernel.small.ime_end_status = END_STATUS_ABORTED;
    ctx.kernel.small.ime_status = STATUS_FINISHED;
    OK
}

/// Put the dialog away; how it ended stays readable.
pub open spec fn term(m: Machine, a: Seq<u64>) -> (Machine, u64) {
    (Machine { small: SmallState { ime_status: STATUS_NONE, ..m.small }, ..m }, OK)
}

/// `sceImeDialogTerm()`.
pub fn hle_term(ctx: &mut HleContext, args: &[u64]) -> (r: u64)
    ensures
        final(ctx)@ == term(old(ctx)@, args@).0,
        r == term(old(ctx)@, args@).1,
{
    ctx.kernel.small.ime_status = STATUS_NONE;
    OK
}

/// Write a nominal panel size. A width that was written stays when the height
/// cannot be.
pub open spec fn get_panel_size_extended(m: Machine, a: Seq<u64>) -> (Machine, u64) {
    if arg(a, 0) == 0 || arg(a, 2) == 0 || arg(a, 3) == 0 {
        (m, IME_ERROR_INVALID_ADDRESS)
    } else {
        let (m1, wide) = m.put_u32(arg(a, 2) as int, PANEL_WIDTH);
        let (m2, high) = m1.put_u32(arg(a, 3) as int, PANEL_HEIGHT);
        if !wide {
            (m, IME_ERROR_INVALID_ADDRESS)
        } else if !high {
            (m1, IME_ERROR_INVALID_ADDRESS)
        } else {
            (m2, OK)
        }
    }
}

/// `sceImeDialogGetPanelSizeExtended(param, extended, width, height)`.
pub fn hle_get_panel_size_extended(ctx: &mut HleContext, args: &[u64]) -> (r: u64)
    ensures
        final(ctx)@ == get_panel_size_extended(old(ctx)@, args@).0,
        r == get_panel_size_extended(old(ctx)@, args@).1,
{
    let width: u64 = get_arg(args, 2);
    let height: u64 = get_arg(args, 3);
    if get_arg(args, 0) == 0 || width == 0 || height == 0 {
        return IME_ERROR_INVALID_ADDRESS;
    }
    if !ctx.mem.write_u32(width, 0, PANEL_WIDTH) {
        return IME_ERROR_INVALID_ADDRESS;
    }
    if !ctx.mem.write_u32(height, 0, PANEL_HEIGHT) {
        return IME_ERROR_INVALID_ADDRESS;
    }
    OK
}

/// An opened dialog is finished on the first poll, its result reads as
/// cancelled, and as aborted once it was aborted.
pub proof fn law_keyboard_cancels_at_once(m: Machine, a: Seq<u64>, b: Seq<u64>, out: Seq<u64>)
    requires
        init(m, a).1 == OK,
        get_result(init(m, a).0, out).1 == OK,
    ensures
        init(m, a).0.small.ime_status == STATUS_FINISHED,
        crate::mem::load_u32(get_result(init(m, a).0, out).0.mem, arg(out, 0) as int) == Some(
            END_STATUS_USER_CANCELED,
        ),
        get_result(abort(init(m, a).0, b).0, out).1 == OK,
        crate::mem::load_u32(
            get_result(abort(init(m, a).0, b).0, out).0.mem,
            arg(out, 0) as int,
        ) == Some(END_STATUS_ABORTED),
        term(init(m, a).0, b).0.small.ime_status == STATUS_NONE,
{
    crate::bytes::lemma_auto_spec_u32_to_from_le_bytes();
    crate::mem::law_read_back_u32(m.mem, arg(out, 0) as int, END_STATUS_USER_CANCELED);
    crate::mem::law_read_back_u32(m.mem, arg(out, 0) as int, END_STATUS_ABORTED);
}

/// The exports of libSceImeDialog.
#[derive(Clone, Copy, PartialEq, Eq, Structural, Debug)]
pub enum ImeDialogExport {
    Init,
    GetStatus,
    GetResult,
    Abort,
    Term,
    GetPanelSizeExtended,
}

impl Export for ImeDialogExport {
    open spec fn as_handler(self) -> Handler {
        Handler::ImeDialog(self)
    }

    fn handler(self) -> (r: Handler) {
        Handler::ImeDialog(self)
    }
}

/// Names and the exports that answer them.
pub const EXPORTS: [(&'static str, &'static str, ImeDialogExport); 6] = [
    ("libSceImeDialog", "sceImeDialogInit", ImeDialogExport::Init),
    ("libSceImeDialog", "sceImeDialogGetStatus", ImeDialogExport::GetStatus),
    ("libSceImeDialog", "sceImeDialogGetResult", ImeDialogExport::GetResult),
    ("libSceImeDialog", "sceImeDialogAbort", ImeDialogExport::Abort),
    ("libSceImeDialog", "sceImeDialogTerm", ImeDialogExport::Term),
    ("libSceImeDialog", "sceImeDialogGetPanelSizeExtended", ImeDialogExport::GetPanelSizeExtended),
];

/// The registry with this library in it.
pub open spec fn registered(r: Registry) -> Registry {
    with_exports(r, EXPORTS@)
}

/// Register libSceImeDialog.
pub fn register(registry: &mut HleRegistry)
    ensures
        final(registry)@ == registered(old(registry)@),
{
    registry.register_exports(&EXPORTS);
}

/// What an export does: the next machine and the answer.
pub open spec fn effect(e: ImeDialogExport, m: Machine, a: Seq<u64>) -> (Machine, Reply) {
    match e {
        ImeDialogExport::Init => returns_value(init(m, a)),
        ImeDialogExport::GetStatus => (m, Reply::Return(m.small.ime_status as u64)),
        ImeDialogExport::GetResult => returns_value(get_result(m, a)),
        ImeDialogExport::Abort => returns_value(abort(m, a)),
        ImeDialogExport::Term => returns_value(term(m, a)),
        ImeDialogExport::GetPanelSizeExtended => returns_value(get_panel_size_extended(m, a)),
    }
}

/// Call an export.
pub fn call(e: ImeDialogExport, ctx: &mut HleContext, args: &[u64]) -> (r: Outcome)
    ensures
        final(ctx)@ == effect(e, old(ctx)@, args@).0,
        r@ == effect(e, old(ctx)@, args@).1,
{
    match e {
        ImeDialogExport::Init => Outcome::Return(hle_init(ctx, args)),
        ImeDialogExport::GetStatus => Outcome::Return(hle_get_status(ctx)),
        ImeDialogExport::GetResult => Outcome::Return(hle_get_result(ctx, args)),
        ImeDialogExport::Abort => Outcome::Return(hle_abort(ctx, args)),
        ImeDialogExport::Term => Outcome::Return(hle_term(ctx, args)),
        ImeDialogExport::GetPanelSizeExtended => Outcome::Return(
            hle_get_panel_size_extended(ctx, args),
        ),
    }
}

} // verus!
