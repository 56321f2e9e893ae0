//! libSceContentExport: initialisation of screenshot and video export.
//!
//! There is no media store to export to: the export calls report success and
//! produce nothing.
use vstd::prelude::*;
use crate::context::{arg, get_arg, HleContext, Machine, SmallState, OK};
use crate::mem::{load_u64, u64_or_zero};
use crate::registry::{
    returns_value, with_exports, with_incomplete, Export, Handler, HleRegistry, Outcome, Registry,
    Reply,
};

verus! {

pub const ERROR_NOINIT: u64 = 0x809D_3004;

pub const ERROR_MULTIPLEINIT: u64 = 0x809D_3005;

pub const ERROR_INVALDPARAM: u64 = 0x809D_3016;

/// The smallest buffer that may be asked for.
pub const MIN_BUFFER: u64 = 0x100;

/// Whether the parameter block at `p` can be initialised from. The block holds
/// the allocation function at `+0x00`, the release function at `+0x08`, the
/// buffer size at `+0x18` and reserved words at `+0x20` and `+0x28`; the first
/// version of the call looks at the two functions alone.
pub open spec fn valid_param(m: Machine, p: u64, version: u8) -> bool {
    let size = u64_or_zero(m.mem, p + 0x18);
    &&& p != 0
    &&& load_u64(m.mem, p as int) matches Some(f) && f != 0
    &&& load_u64(m.mem, p + 0x08) matches Some(f) && f != 0
    &&& version == 1 ==> u64_or_zero(m.mem, p + 0x20) == 0 && u64_or_zero(m.mem, p + 0x28) == 0 && (
    size == 0 || size >= MIN_BUFFER)
}

/// Initialise once.
pub open spec fn content_export_init(m: Machine, p: u64, version: u8) -> (Machine, u64) {
    if m.small.content_export_initialized {
        (m, ERROR_MULTIPLEINIT)
    } else if !valid_param(m, p, version) {
        (m, ERROR_INVALDPARAM)
    } else {
        (Machine { small: SmallState { content_export_initialized: true, ..m.small }, ..m }, OK)
    }
}

fn do_init(ctx: &mut HleContext, p: u64, version: u8) -> (r: u64)
    ensures
        final(ctx)@ == content_export_init(old(ctx)@, p, version).0,
        r == content_export_init(old(ctx)@, p, version).1,
{
    if ctx.kernel.small.content_export_initialized {
        return ERROR_MULTIPLEINIT;
    }
    if p == 0 {
        return ERROR_INVALDPARAM;
    }
    match (ctx.mem.read_u64(p, 0), ctx.mem.read_u64(p, 0x08)) {
        (Some(allocate), Some(release)) => {
            if allocate == 0 || release == 0 {
                return ERROR_INVALDPARAM;
            }
        },
        _ => {
            return ERROR_INVALDPARAM;
        },
    }
    if version == 1 {
        let size: u64 = ctx.mem.read_u64_or_zero(p, 0x18);
        if ctx.mem.read_u64_or_zero(p, 0x20) != 0 || ctx.mem.read_u64_or_zero(p, 0x28) != 0 || (size
            != 0 && size < MIN_BUFFER) {
            return ERROR_INVALDPARAM;
        }
    }
    ctx.kernel.small.content_export_initialized = true;
    OK
}

/// The first version of initialisation.
pub open spec fn init(m: Machine, a: Seq<u64>) -> (Machine, u64) {
    content_export_init(m, arg(a, 0), 0)
}

/// `sceContentExportInit(param)`.
pub fn hle_init(ctx: &mut HleContext, args: &[u64]) -> (r: u64)
    ensures
        final(ctx)@ == init(old(ctx)@, args@).0,
        r == init(old(ctx)@, args@).1,
{
    do_init(ctx, get_arg(args, 0), 0)
}

/// The second version of initialisation.
pub open spec fn init2(m: Machine, a: Seq<u64>) -> (Machine, u64) {
    content_export_init(m, arg(a, 0), 1)
}

/// `sceContentExportInit2(param)`.
pub fn hle_init2(ctx: &mut HleContext, args: &[u64]) -> (r: u64)
    ensures
        final(ctx)@ == init2(old(ctx)@, args@).0,
        r == init2(old(ctx)@, args@).1,
{
    do_init(ctx, get_arg(args, 0), 1)
}

/// Undo initialisation.
pub open spec fn term(m: Machine, a: Seq<u64>) -> (Machine, u64) {
    if m.small.content_export_initialized {
        (Machine { small: SmallState { content_export_initialized: false, ..m.small }, ..m }, OK)
    } else {
        (m, ERROR_NOINIT)
    }
}

/// `sceContentExportTerm()`.
pub fn hle_term(ctx: &mut HleContext, args: &[u64]) -> (r: u64)
    ensures
        final(ctx)@ == term(old(ctx)@, args@).0,
        r == term(old(ctx)@, args@).1,
{
    if !ctx.kernel.small.content_export_initialized {
        return ERROR_NOINIT;
    }
    ctx.kernel.small.content_export_initialized = false;
    OK
}

/// `sceContentExport{Start,Finish,FromData,FromFile,FromFileWithThumbnail}`:
/// success, with nothing exported.
pub fn hle_ok() -> (r: u64)
    ensures
        r == OK,
{
    OK
}

/// Terminating undoes initialising, initialising twice is refused, and so is
/// terminating twice.
pub proof fn law_init_term(m: Machine, p: u64, version: u8, a: Seq<u64>)
    requires
        content_export_init(m, p, version).1 == OK,
    ensures
        term(content_export_init(m, p, version).0, a) == (m, OK),
        forall|q: u64, v: u8| #[trigger]
            content_export_init(content_export_init(m, p, version).0, q, v) == (
                content_export_init(m, p, version).0,
                ERROR_MULTIPLEINIT,
            ),
        term(term(content_export_init(m, p, version).0, a).0, a).1 == ERROR_NOINIT,
{
}

/// The exports of libSceContentExport.
#[derive(Clone, Copy, PartialEq, Eq, Structural, Debug)]
pub enum ContentExportExport {
    Init,
    Init2,
    Term,
    Accept,
}

impl Export for ContentExportExport {
    open spec fn as_handler(self) -> Handler {
        Handler::ContentExport(self)
    }

    fn handler(self) -> (r: Handler) {
        Handler::ContentExport(self)
    }
}

/// Names and the exports that answer them.
pub const EXPORTS: [(&'static str, &'static str, ContentExportExport); 3] = [
    ("libSceContentExport", "sceContentExportInit", ContentExportExport::Init),
    ("libSceContentExport", "sceContentExportInit2", ContentExportExport::Init2),
    ("libSceContentExport", "sceContentExportTerm", ContentExportExport::Term),
];

/// Names whose exports do less than they should, and what is missing.
pub const INCOMPLETE_EXPORTS: [(&'static str, &'static str, ContentExportExport, &'static str); 5] = [
    (
        "libSceContentExport",
        "sceContentExportStart",
        ContentExportExport::Accept,
        "reports success but no export session is created",
    ),
    (
        "libSceContentExport",
        "sceContentExportFinish",
        ContentExportExport::Accept,
        "reports success for an export session that was never created",
    ),
    (
        "libSceContentExport",
        "sceContentExportFromData",
        ContentExportExport::Accept,
        "reports success but nothing is exported to any host media store",
    ),
    (
        "libSceContentExport",
        "sceContentExportFromFile",
        ContentExportExport::Accept,
        "reports success but the source file is not exported anywhere",
    ),
    (
        "libSceContentExport",
        "sceContentExportFromFileWithThumbnail",
        ContentExportExport::Accept,
        "reports success but neither file nor thumbnail is exported anywhere",
    ),
];

/// The registry with this library in it.
pub open spec fn registered(r: Registry) -> Registry {
    with_incomplete(with_exports(r, EXPORTS@), INCOMPLETE_EXPORTS@)
}

/// Register libSceContentExport.
pub fn register(registry: &mut HleRegistry)
    ensures
        final(registry)@ == registered(old(registry)@),
{
    registry.register_exports(&EXPORTS);
    registry.register_incompletes(&INCOMPLETE_EXPORTS);
}

/// What an export does: the next machine and the answer.
pub open spec fn effect(e: ContentExportExport, m: Machine, a: Seq<u64>) -> (Machine, Reply) {
    match e {
        ContentExportExport::Init => returns_value(init(m, a)),
        ContentExportExport::Init2 => returns_value(init2(m, a)),
        ContentExportExport::Term => returns_value(term(m, a)),
        ContentExportExport::Accept => (m, Reply::Return(OK)),
    }
}

/// Call an export.
pub fn call(e: ContentExportExport, ctx: &mut HleContext, args: &[u64]) -> (r: Outcome)
    ensures
        final(ctx)@ == effect(e, old(ctx)@, args@).0,
        r@ == effect(e, old(ctx)@, args@).1,
{
    match e {
        ContentExportExport::Init => Outcome::Return(hle_init(ctx, args)),
        ContentExportExport::Init2 => Outcome::Return(hle_init2(ctx, args)),
        ContentExportExport::Term => Outcome::Return(hle_term(ctx, args)),
        ContentExportExport::Accept => Outcome::Return(hle_ok()),
    }
}

} // verus!
