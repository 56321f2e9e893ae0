//! libSceAudioPropagation: the acoustics service.
//!
//! The service tells how much memory it wants and accepts everything else; no
//! path is ever found, which is what an empty scene sounds like.
use vstd::prelude::*;
use crate::context::{arg, get_arg, HleContext, Machine, OK};
use crate::registry::{
    answers, law_a_row_answers, returns_value, row_key, with_exports, Export, Handler, HleRegistry,
    Outcome, Registered, Registry, Reply,
};

verus! {

/// The working set that the service asks for.
pub const WORKING_SET_SIZE: u64 = 0x10_0000;

pub const WORKING_SET_ALIGNMENT: u64 = 0x100;

/// Write the size and the alignment of the working set, each where it can be
/// written. No place to write to is no error.
pub open spec fn system_query_memory(m: Machine, a: Seq<u64>) -> (Machine, u64) {
    if arg(a, 1) == 0 {
        (m, OK)
    } else {
        let (m1, _) = m.put_u64(arg(a, 1) as int, WORKING_SET_SIZE);
        let (m2, _) = m1.put_u64(arg(a, 1) + 8, WORKING_SET_ALIGNMENT);
        (m2, OK)
    }
}

/// `sceAudioPropagationSystemQueryMemory(params, out)`.
pub fn hle_system_query_memory(ctx: &mut HleContext, args: &[u64]) -> (r: u64)
    ensures
        final(ctx)@ == system_query_memory(old(ctx)@, args@).0,
        r == system_query_memory(old(ctx)@, args@).1,
{
    let out: u64 = get_arg(args, 1);
    if out != 0 {
        let _: bool = ctx.mem.write_u64(out, 0, WORKING_SET_SIZE);
        let _: bool = ctx.mem.write_u64(out, 8, WORKING_SET_ALIGNMENT);
    }
    OK
}

/// Every other call of the library: accepted.
pub fn hle_ok() -> (r: u64)
    ensures
        r == OK,
{
    OK
}

/// The exports of libSceAudioPropagation.
#[derive(Clone, Copy, PartialEq, Eq, Structural, Debug)]
pub enum AudioPropagationExport {
    SystemQueryMemory,
    Accept,
}

impl Export for AudioPropagationExport {
    open spec fn as_handler(self) -> Handler {
        Handler::AudioPropagation(self)
    }

    fn handler(self) -> (r: Handler) {
        Handler::AudioPropagation(self)
    }
}

/// Names and the exports that answer them.
pub const EXPORTS: [(&'static str, &'static str, AudioPropagationExport); 31] = [
    (
        "libSceAudioPropagation",
        "sceAudioPropagationSystemQueryMemory",
        AudioPropagationExport::SystemQueryMemory,
    ),
    (
        "libSceAudioPropagation",
        "sceAudioPropagationSystemQueryInfo",
        AudioPropagationExport::Accept,
    ),
    ("libSceAudioPropagation", "sceAudioPropagationSystemCreate", AudioPropagationExport::Accept),
    ("libSceAudioPropagation", "sceAudioPropagationSystemDestroy", AudioPropagationExport::Accept),
    ("libSceAudioPropagation", "sceAudioPropagationSystem", AudioPropagationExport::Accept),
    (
        "libSceAudioPropagation",
        "sceAudioPropagationSystemMemoryInit",
        AudioPropagationExport::Accept,
    ),
    (
        "libSceAudioPropagation",
        "sceAudioPropagationSystemOptionInit",
        AudioPropagationExport::Accept,
    ),
    ("libSceAudioPropagation", "sceAudioPropagationSystemLock", AudioPropagationExport::Accept),
    (
        "libSceAudioPropagation",
        "sceAudioPropagationSystemSetAttributes",
        AudioPropagationExport::Accept,
    ),
    ("libSceAudioPropagation", "sceAudioPropagationSystemSetRays", AudioPropagationExport::Accept),
    ("libSceAudioPropagation", "sceAudioPropagationSystemGetRays", AudioPropagationExport::Accept),
    (
        "libSceAudioPropagation",
        "sceAudioPropagationSystemRegisterMaterial",
        AudioPropagationExport::Accept,
    ),
    (
        "libSceAudioPropagation",
        "sceAudioPropagationSystemUnregisterMaterial",
        AudioPropagationExport::Accept,
    ),
    ("libSceAudioPropagation", "sceAudioPropagationRoomCreate", AudioPropagationExport::Accept),
    ("libSceAudioPropagation", "sceAudioPropagationRoomDestroy", AudioPropagationExport::Accept),
    ("libSceAudioPropagation", "sceAudioPropagationPortalCreate", AudioPropagationExport::Accept),
    ("libSceAudioPropagation", "sceAudioPropagationPortalDestroy", AudioPropagationExport::Accept),
    (
        "libSceAudioPropagation",
        "sceAudioPropagationPortalSetAttributes",
        AudioPropagationExport::Accept,
    ),
    (
        "libSceAudioPropagation",
        "sceAudioPropagationPortalSettingsInit",
        AudioPropagationExport::Accept,
    ),
    ("libSceAudioPropagation", "sceAudioPropagationSourceCreate", AudioPropagationExport::Accept),
    ("libSceAudioPropagation", "sceAudioPropagationSourceDestroy", AudioPropagationExport::Accept),
    (
        "libSceAudioPropagation",
        "sceAudioPropagationSourceSetAttributes",
        AudioPropagationExport::Accept,
    ),
    (
        "libSceAudioPropagation",
        "sceAudioPropagationSourceCalculateAudioPaths",
        AudioPropagationExport::Accept,
    ),
    (
        "libSceAudioPropagation",
        "sceAudioPropagationSourceGetAudioPath",
        AudioPropagationExport::Accept,
    ),
    (
        "libSceAudioPropagation",
        "sceAudioPropagationSourceGetAudioPathCount",
        AudioPropagationExport::Accept,
    ),
    ("libSceAudioPropagation", "sceAudioPropagationSourceGetRays", AudioPropagationExport::Accept),
    (
        "libSceAudioPropagation",
        "sceAudioPropagationSourceQueryInfo",
        AudioPropagationExport::Accept,
    ),
    ("libSceAudioPropagation", "sceAudioPropagationSourceRender", AudioPropagationExport::Accept),
    (
        "libSceAudioPropagation",
        "sceAudioPropagationSourceRenderInfoInit",
        AudioPropagationExport::Accept,
    ),
    (
        "libSceAudioPropagation",
        "sceAudioPropagationSourceSetAudioPath",
        AudioPropagationExport::Accept,
    ),
    (
        "libSceAudioPropagation",
        "sceAudioPropagationSourceSetAudioPaths",
        AudioPropagationExport::Accept,
    ),
];

/// The registry with this library in it.
pub open spec fn registered(r: Registry) -> Registry {
    with_exports(r, EXPORTS@)
}

/// Register libSceAudioPropagation.
pub fn register(registry: &mut HleRegistry)
    ensures
        final(registry)@ == registered(old(registry)@),
{
    registry.register_exports(&EXPORTS);
}

/// What an export does: the next machine and the answer.
pub open spec fn effect(e: AudioPropagationExport, m: Machine, a: Seq<u64>) -> (Machine, Reply) {
    match e {
        AudioPropagationExport::SystemQueryMemory => returns_value(system_query_memory(m, a)),
        AudioPropagationExport::Accept => (m, Reply::Return(OK)),
    }
}

/// Call an export.
pub fn call(e: AudioPropagationExport, ctx: &mut HleContext, args: &[u64]) -> (r: Outcome)
    ensures
        final(ctx)@ == effect(e, old(ctx)@, args@).0,
        r@ == effect(e, old(ctx)@, args@).1,
{
    match e {
        AudioPropagationExport::SystemQueryMemory => Outcome::Return(
            hle_system_query_memory(ctx, args),
        ),
        AudioPropagationExport::Accept => Outcome::Return(hle_ok()),
    }
}

proof fn lemma_one_query(j: int)
    requires
        0 <= j < EXPORTS@.len(),
        EXPORTS@[j].2 is SystemQueryMemory,
    ensures
        j == 0,
{
    assert(EXPORTS@.len() == 31);
}

/// Every name of the library answers 0, whatever it is called with. Only the
/// memory query writes; every other name leaves the machine as it is.
pub proof fn law_every_name_is_accepted(
    r: Registry,
    i: int,
    m: Machine,
    a: Seq<u64>,
    after: Machine,
    reply: Reply,
)
    requires
        0 <= i < EXPORTS@.len(),
        answers(registered(r).exports[row_key(EXPORTS@[i])].handler, m, a, after, reply),
    ensures
        registered(r).exports.dom().contains(row_key(EXPORTS@[i])),
        registered(r).exports[row_key(EXPORTS@[i])].reason is None,
        reply == Reply::Return(OK),
        after == m || (EXPORTS@[i].1@ == "sceAudioPropagationSystemQueryMemory"@ && after
            == system_query_memory(m, a).0),
{
    law_a_row_answers(r, EXPORTS@, i);
    let k = row_key(EXPORTS@[i]);
    let j = choose|j: int|
        i <= j < EXPORTS@.len() && row_key(#[trigger] EXPORTS@[j]) == k && with_exports(
            r,
            EXPORTS@,
        ).exports[k] == (Registered { handler: EXPORTS@[j].2.as_handler(), reason: None });
    if EXPORTS@[j].2 is SystemQueryMemory {
        lemma_one_query(j);
    }
}

} // verus!
