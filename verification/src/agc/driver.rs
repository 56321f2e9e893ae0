//! The graphics driver: resource owners, registered resources and graphics
//! events.
use vstd::prelude::*;
use crate::agc::packet::{lo, lo32};
use crate::agc::patch::{set_u32, set_u64, store_u32, store_u64};
use crate::context::{
    arg, get_arg, AgcResource, AgcState, GpuLog, HleContext, Machine, Resource, OK,
    SCE_ERROR_INVALID_ARGUMENT, SCE_ERROR_MEMORY_FAULT, SCE_ERROR_NOT_FOUND,
};
use crate::events::{EqueueUserEvent, EVFILT_GRAPHICS_CORE};
use crate::table::Table;
use crate::text::{cstring, lossy_text, read_guest_cstring, text_from_utf8_lossy};

verus! {

/// The room that a registered name takes, its terminator counted.
pub const RESOURCE_REGISTRATION_MAX_NAME_LENGTH: u32 = 256;

/// The most bytes that are read of a name.
pub const NAME_MAX: usize = 255;

pub const RESOURCE_REGISTRATION_BYTES_PER_RESOURCE: u64 = 0x118;

pub const RESOURCE_REGISTRATION_BYTES_PER_OWNER: u64 = 0x1E0;

/// Tell the caller how long a name may be.
pub open spec fn get_resource_max_name_length(m: Machine, a: Seq<u64>) -> (Machine, u64) {
    if arg(a, 0) == 0 {
        (m, SCE_ERROR_INVALID_ARGUMENT)
    } else {
        set_u32(m, arg(a, 0) as int, RESOURCE_REGISTRATION_MAX_NAME_LENGTH)
    }
}

/// `sceAgcDriverGetResourceRegistrationMaxNameLength(out)`.
pub fn hle_get_resource_max_name_length(ctx: &mut HleContext, args: &[u64]) -> (r: u64)
    ensures
        final(ctx)@ == get_resource_max_name_length(old(ctx)@, args@).0,
        r == get_resource_max_name_length(old(ctx)@, args@).1,
{
    let out: u64 = get_arg(args, 0);
    if out == 0 {
        return SCE_ERROR_INVALID_ARGUMENT;
    }
    store_u32(ctx, out, 0, RESOURCE_REGISTRATION_MAX_NAME_LENGTH)
}

/// Ask the GPU to finish everything submitted so far. The count of requests is
/// modulo 2^64.
pub open spec fn suspend_point(m: Machine, a: Seq<u64>) -> (Machine, u64) {
    (Machine { gpu: GpuLog { waits: m.gpu.waits.wrapping_add(1), ..m.gpu }, ..m }, OK)
}

/// `sceAgcSuspendPoint()`.
pub fn hle_suspend_point(ctx: &mut HleContext, args: &[u64]) -> (r: u64)
    ensures
        final(ctx)@ == suspend_point(old(ctx)@, args@).0,
        r == suspend_point(old(ctx)@, args@).1,
{
    ctx.gpu.waits = ctx.gpu.waits.wrapping_add(1);
    OK
}

/// Record the default resource owner.
pub open spec fn driver_register_default_owner(m: Machine, a: Seq<u64>) -> (Machine, u64) {
    (Machine { agc: AgcState { default_owner: lo(arg(a, 0)), ..m.agc }, ..m }, OK)
}

/// `sceAgcDriverRegisterDefaultOwner(owner)`.
pub fn hle_driver_register_default_owner(ctx: &mut HleContext, args: &[u64]) -> (r: u64)
    ensures
        final(ctx)@ == driver_register_default_owner(old(ctx)@, args@).0,
        r == driver_register_default_owner(old(ctx)@, args@).1,
{
    ctx.kernel.agc.default_owner = lo32(get_arg(args, 0));
    OK
}

/// Write the default resource owner.
pub open spec fn driver_get_default_owner(m: Machine, a: Seq<u64>) -> (Machine, u64) {
    if arg(a, 0) == 0 {
        (m, SCE_ERROR_INVALID_ARGUMENT)
    } else {
        set_u32(m, arg(a, 0) as int, m.agc.default_owner)
    }
}

/// `sceAgcDriverGetDefaultOwner(out)`.
pub fn hle_driver_get_default_owner(ctx: &mut HleContext, args: &[u64]) -> (r: u64)
    ensures
        final(ctx)@ == driver_get_default_owner(old(ctx)@, args@).0,
        r == driver_get_default_owner(old(ctx)@, args@).1,
{
    let out: u64 = get_arg(args, 0);
    if out == 0 {
        return SCE_ERROR_INVALID_ARGUMENT;
    }
    let owner: u32 = ctx.kernel.agc.default_owner;
    store_u32(ctx, out, 0, owner)
}

/// The first owner handle from `from` on that is neither the default owner nor
/// taken, or zero when the handles have run out.
pub open spec fn free_owner(owners: Map<u64, Seq<char>>, default_owner: u32, from: u32) -> u32
    decreases 0x1_0000_0000 - from,
{
    if from == 0 || (from != default_owner && !owners.dom().contains(from as u64)) {
        from
    } else if from == u32::MAX {
        0
    } else {
        free_owner(owners, default_owner, (from + 1) as u32)
    }
}

/// Allocate an owner handle for the name at argument 1. The table may be
/// limited; a handle that could not be reported is not kept.
pub open spec fn driver_register_owner(m: Machine, a: Seq<u64>) -> (Machine, u64) {
    if arg(a, 0) == 0 || arg(a, 1) == 0 {
        (m, SCE_ERROR_INVALID_ARGUMENT)
    } else {
        match cstring(m.mem, arg(a, 1) as int, NAME_MAX as nat) {
            None => (m, SCE_ERROR_INVALID_ARGUMENT),
            Some(name) => if m.agc.max_owners != 0 && m.owners.dom().len() >= m.agc.max_owners {
                (m, SCE_ERROR_INVALID_ARGUMENT)
            } else {
                let owner = free_owner(m.owners, m.agc.default_owner, m.agc.next_owner);
                let m1 = Machine {
                    agc: AgcState { next_owner: owner.wrapping_add(1), ..m.agc },
                    ..m
                };
                let (m2, ok) = m1.put_u32(arg(a, 0) as int, owner);
                if owner == 0 {
                    (m1, SCE_ERROR_INVALID_ARGUMENT)
                } else if ok {
                    (
                        Machine {
                            owners: m.owners.insert(owner as u64, lossy_text(name)),
                            ..m2
                        },
                        OK,
                    )
                } else {
                    (m1, SCE_ERROR_MEMORY_FAULT)
                }
            },
        }
    }
}

/// Find a free owner handle and move the counter behind it.
fn next_owner(ctx: &mut HleContext) -> (r: u32)
    ensures
        r == free_owner(old(ctx)@.owners, old(ctx)@.agc.default_owner, old(ctx)@.agc.next_owner),
        final(ctx)@ == (Machine {
            agc: AgcState { next_owner: r.wrapping_add(1), ..old(ctx)@.agc },
            ..old(ctx)@
        }),
{
    let default_owner: u32 = ctx.kernel.agc.default_owner;
    let mut candidate: u32 = ctx.kernel.agc.next_owner;
    let ghost owners = ctx@.owners;
    proof {
        assert(owners.dom() =~= ctx.kernel.agc_resource_owners@.dom());
    }
    while candidate != 0 && (candidate == default_owner || ctx.kernel.agc_resource_owners.contains(
        candidate as u64,
    ))
        invariant
            owners.dom() == ctx.kernel.agc_resource_owners@.dom(),
            ctx@ == old(ctx)@,
            owners == old(ctx)@.owners,
            default_owner == old(ctx)@.agc.default_owner,
            free_owner(owners, default_owner, candidate) == free_owner(
                owners,
                default_owner,
                old(ctx)@.agc.next_owner,
            ),
        decreases
                (if candidate == 0 {
                    0
                } else {
                    0x1_0000_0000 - candidate
                }),
    {
        candidate = candidate.wrapping_add(1);
    }
    ctx.kernel.agc.next_owner = candidate.wrapping_add(1);
    candidate
}

/// `sceAgcDriverRegisterOwner(ownerOut, name)`.
pub fn hle_driver_register_owner(ctx: &mut HleContext, args: &[u64]) -> (r: u64)
    ensures
        final(ctx)@ == driver_register_owner(old(ctx)@, args@).0,
        r == driver_register_owner(old(ctx)@, args@).1,
{
    let out: u64 = get_arg(args, 0);
    let name_at: u64 = get_arg(args, 1);
    if out == 0 || name_at == 0 {
        return SCE_ERROR_INVALID_ARGUMENT;
    }
    let name = match read_guest_cstring(&ctx.mem, name_at, NAME_MAX) {
        Some(name) => name,
        None => {
            return SCE_ERROR_INVALID_ARGUMENT;
        },
    };
    let limit: u32 = ctx.kernel.agc.max_owners;
    proof {
        assert(ctx@.owners.dom() =~= ctx.kernel.agc_resource_owners@.dom());
    }
    if limit != 0 && ctx.kernel.agc_resource_owners.len() >= limit as usize {
        return SCE_ERROR_INVALID_ARGUMENT;
    }
    let owner: u32 = next_owner(ctx);
    if owner == 0 {
        return SCE_ERROR_INVALID_ARGUMENT;
    }
    if !ctx.mem.write_u32(out, 0, owner) {
        return SCE_ERROR_MEMORY_FAULT;
    }
    let ghost before = ctx@.owners;
    let text = text_from_utf8_lossy(name.as_slice());
    ctx.kernel.agc_resource_owners.insert(owner as u64, text);
    proof {
        assert(ctx@.owners =~= before.insert(owner as u64, lossy_text(name@)));
    }
    OK
}

/// Register a resource under an existing owner or the default owner. A handle
/// that could not be reported is not kept.
pub open spec fn driver_register_resource(m: Machine, a: Seq<u64>) -> (Machine, u64) {
    let owner = lo(arg(a, 1));
    match cstring(m.mem, arg(a, 4) as int, NAME_MAX as nat) {
        None => (m, SCE_ERROR_INVALID_ARGUMENT),
        Some(name) => if arg(a, 0) == 0 || arg(a, 2) == 0 || arg(a, 3) == 0 || (owner
            != m.agc.default_owner && !m.owners.dom().contains(owner as u64)) {
            (m, SCE_ERROR_INVALID_ARGUMENT)
        } else {
            let handle = m.agc.next_resource;
            let m1 = Machine {
                agc: AgcState { next_resource: handle.wrapping_add(1), ..m.agc },
                ..m
            };
            let (m2, ok) = m1.put_u32(arg(a, 0) as int, handle);
            if handle == 0 {
                (m1, SCE_ERROR_INVALID_ARGUMENT)
            } else if ok {
                (
                    Machine {
                        resources: m.resources.insert(
                            handle as u64,
                            Resource {
                                owner,
                                address: arg(a, 2),
                                size: arg(a, 3),
                                name: lossy_text(name),
                                resource_type: lo(arg(a, 5)),
                                flags: lo(arg(a, 6)),
                            },
                        ),
                        ..m2
                    },
                    OK,
                )
            } else {
                (
                    Machine { resources: m.resources.remove(handle as u64), ..m1 },
                    SCE_ERROR_MEMORY_FAULT,
                )
            }
        },
    }
}

/// `sceAgcDriverRegisterResource(handleOut, owner, address, size, name, type,
/// flags)`.
pub fn hle_driver_register_resource(ctx: &mut HleContext, args: &[u64]) -> (r: u64)
    ensures
        final(ctx)@ == driver_register_resource(old(ctx)@, args@).0,
        r == driver_register_resource(old(ctx)@, args@).1,
{
    let out: u64 = get_arg(args, 0);
    let owner: u32 = lo32(get_arg(args, 1));
    let address: u64 = get_arg(args, 2);
    let size: u64 = get_arg(args, 3);
    let name = match read_guest_cstring(&ctx.mem, get_arg(args, 4), NAME_MAX) {
        Some(name) => name,
        None => {
            return SCE_ERROR_INVALID_ARGUMENT;
        },
    };
    if out == 0 || address == 0 || size == 0 {
        return SCE_ERROR_INVALID_ARGUMENT;
    }
    proof {
        assert(ctx@.owners.dom() =~= ctx.kernel.agc_resource_owners@.dom());
    }
    if owner != ctx.kernel.agc.default_owner && !ctx.kernel.agc_resource_owners.contains(
        owner as u64,
    ) {
        return SCE_ERROR_INVALID_ARGUMENT;
    }
    let handle: u32 = ctx.kernel.agc.next_resource;
    ctx.kernel.agc.next_resource = handle.wrapping_add(1);
    if handle == 0 {
        return SCE_ERROR_INVALID_ARGUMENT;
    }
    let ghost before = ctx@.resources;
    if !ctx.mem.write_u32(out, 0, handle) {
        let _had: bool = ctx.kernel.agc_resources.remove(handle as u64);
        proof {
            assert(ctx@.resources =~= before.remove(handle as u64));
        }
        return SCE_ERROR_MEMORY_FAULT;
    }
    let resource = AgcResource {
        owner,
        address,
        size,
        name: text_from_utf8_lossy(name.as_slice()),
        resource_type: lo32(get_arg(args, 5)),
        flags: lo32(get_arg(args, 6)),
    };
    let ghost entry = resource@;
    ctx.kernel.agc_resources.insert(handle as u64, resource);
    proof {
        assert(ctx@.resources =~= before.insert(handle as u64, entry));
    }
    OK
}

/// Start resource registration afresh, with room for the given number of
/// owners.
pub open spec fn driver_init_resource_registration(m: Machine, a: Seq<u64>) -> (Machine, u64) {
    let n = arg(a, 2);
    if arg(a, 0) == 0 || arg(a, 1) == 0 || n == 0 || n > u32::MAX {
        (m, SCE_ERROR_INVALID_ARGUMENT)
    } else {
        (
            Machine {
                owners: Map::empty(),
                resources: Map::empty(),
                agc: AgcState {
                    next_owner: 1,
                    next_resource: 1,
                    default_owner: 1,
                    max_owners: n as u32,
                    registration_initialized: true,
                    ..m.agc
                },
                ..m
            },
            OK,
        )
    }
}

/// `sceAgcDriverInitResourceRegistration(memory, memorySize, ownerCount)`.
pub fn hle_driver_init_resource_registration(ctx: &mut HleContext, args: &[u64]) -> (r: u64)
    ensures
        final(ctx)@ == driver_init_resource_registration(old(ctx)@, args@).0,
        r == driver_init_resource_registration(old(ctx)@, args@).1,
{
    let n: u64 = get_arg(args, 2);
    if get_arg(args, 0) == 0 || get_arg(args, 1) == 0 || n == 0 || n > u32::MAX as u64 {
        return SCE_ERROR_INVALID_ARGUMENT;
    }
    ctx.kernel.agc_resource_owners = Table::new();
    ctx.kernel.agc_resources = Table::new();
    ctx.kernel.agc.next_owner = 1;
    ctx.kernel.agc.next_resource = 1;
    ctx.kernel.agc.default_owner = 1;
    ctx.kernel.agc.max_owners = n as u32;
    ctx.kernel.agc.registration_initialized = true;
    proof {
        assert(ctx@.owners =~= Map::<u64, Seq<char>>::empty());
        assert(ctx@.resources =~= Map::<u64, Resource>::empty());
    }
    OK
}

/// The memory that registration needs for the given numbers of resources and
/// owners.
pub open spec fn registration_bytes(resources: u64, owners: u64) -> int {
    resources * RESOURCE_REGISTRATION_BYTES_PER_RESOURCE + owners
        * RESOURCE_REGISTRATION_BYTES_PER_OWNER
}

/// Write the memory that registration needs; a size beyond 64 bits is refused.
pub open spec fn driver_query_resource_memory(m: Machine, a: Seq<u64>) -> (Machine, u64) {
    if arg(a, 0) == 0 || arg(a, 1) == 0 || arg(a, 2) == 0 || registration_bytes(
        arg(a, 1),
        arg(a, 2),
    ) > u64::MAX {
        (m, SCE_ERROR_INVALID_ARGUMENT)
    } else {
        set_u64(m, arg(a, 0) as int, registration_bytes(arg(a, 1), arg(a, 2)) as u64)
    }
}

/// `sceAgcDriverQueryResourceRegistrationUserMemoryRequirements(sizeOut,
/// resourceCount, ownerCount)`.
pub fn hle_driver_query_resource_memory(ctx: &mut HleContext, args: &[u64]) -> (r: u64)
    ensures
        final(ctx)@ == driver_query_resource_memory(old(ctx)@, args@).0,
        r == driver_query_resource_memory(old(ctx)@, args@).1,
{
    let out: u64 = get_arg(args, 0);
    let resources: u64 = get_arg(args, 1);
    let owners: u64 = get_arg(args, 2);
    if out == 0 || resources == 0 || owners == 0 {
        return SCE_ERROR_INVALID_ARGUMENT;
    }
    match (
        resources.checked_mul(RESOURCE_REGISTRATION_BYTES_PER_RESOURCE),
        owners.checked_mul(RESOURCE_REGISTRATION_BYTES_PER_OWNER),
    ) {
        (Some(x), Some(y)) => match x.checked_add(y) {
            Some(required) => store_u64(ctx, out, 0, required),
            None => SCE_ERROR_INVALID_ARGUMENT,
        },
        _ => SCE_ERROR_INVALID_ARGUMENT,
    }
}

/// The event that a graphics registration creates: idle, with the caller's data.
pub open spec fn graphics_event(udata: u64) -> EqueueUserEvent {
    EqueueUserEvent { udata, filter: EVFILT_GRAPHICS_CORE, triggered: false, fflags: 0, data: 0 }
}

/// Register a graphics event on an event queue.
pub open spec fn driver_add_eq_event(m: Machine, a: Seq<u64>) -> (Machine, u64) {
    if !m.equeues.dom().contains(arg(a, 0)) {
        (m, SCE_ERROR_NOT_FOUND)
    } else {
        (
            Machine {
                events: m.events.insert((arg(a, 0), arg(a, 1)), graphics_event(arg(a, 2))),
                ..m
            },
            OK,
        )
    }
}

/// `sceAgcDriverAddEqEvent(equeue, eventId, userData)`.
pub fn hle_driver_add_eq_event(ctx: &mut HleContext, args: &[u64]) -> (r: u64)
    ensures
        final(ctx)@ == driver_add_eq_event(old(ctx)@, args@).0,
        r == driver_add_eq_event(old(ctx)@, args@).1,
{
    let equeue: u64 = get_arg(args, 0);
    if !ctx.kernel.kernel_equeues.contains(equeue) {
        return SCE_ERROR_NOT_FOUND;
    }
    let event = EqueueUserEvent {
        udata: get_arg(args, 2),
        filter: EVFILT_GRAPHICS_CORE,
        triggered: false,
        fflags: 0,
        data: 0,
    };
    ctx.kernel.kernel_equeue_events.insert(equeue, get_arg(args, 1), event);
    OK
}

/// Remove an event from an event queue.
pub open spec fn driver_delete_eq_event(m: Machine, a: Seq<u64>) -> (Machine, u64) {
    if !m.equeues.dom().contains(arg(a, 0)) {
        (m, SCE_ERROR_NOT_FOUND)
    } else {
        (Machine { events: m.events.remove((arg(a, 0), arg(a, 1))), ..m }, OK)
    }
}

/// `sceAgcDriverDeleteEqEvent(equeue, eventId)`.
pub fn hle_driver_delete_eq_event(ctx: &mut HleContext, args: &[u64]) -> (r: u64)
    ensures
        final(ctx)@ == driver_delete_eq_event(old(ctx)@, args@).0,
        r == driver_delete_eq_event(old(ctx)@, args@).1,
{
    let equeue: u64 = get_arg(args, 0);
    if !ctx.kernel.kernel_equeues.contains(equeue) {
        return SCE_ERROR_NOT_FOUND;
    }
    ctx.kernel.kernel_equeue_events.remove(equeue, get_arg(args, 1));
    OK
}

proof fn lemma_free_owner(owners: Map<u64, Seq<char>>, default_owner: u32, from: u32)
    ensures
        ({
            let owner = free_owner(owners, default_owner, from);
            owner != 0 ==> owner != default_owner && !owners.dom().contains(owner as u64)
        }),
    decreases 0x1_0000_0000 - from,
{
    if !(from == 0 || (from != default_owner && !owners.dom().contains(from as u64))) && from
        != u32::MAX {
        lemma_free_owner(owners, default_owner, (from + 1) as u32);
    }
}

/// A newly registered owner differs from the default owner and from every
/// owner before it, and no other owner is touched.
pub proof fn law_owner_is_new(m: Machine, a: Seq<u64>)
    requires
        driver_register_owner(m, a).1 == OK,
    ensures
        exists|owner: u64|
            {
                &&& owner != 0 && owner != m.agc.default_owner
                &&& !m.owners.dom().contains(owner)
                &&& driver_register_owner(m, a).0.owners.dom() == #[trigger] m.owners.dom().insert(
                    owner,
                )
                &&& driver_register_owner(m, a).0.owners.remove(owner) == m.owners
            },
{
    let owner = free_owner(m.owners, m.agc.default_owner, m.agc.next_owner);
    lemma_free_owner(m.owners, m.agc.default_owner, m.agc.next_owner);
    let after = driver_register_owner(m, a).0.owners;
    assert(after.dom() =~= m.owners.dom().insert(owner as u64));
    assert(after.remove(owner as u64) =~= m.owners);
}

/// The default owner that was recorded is the one that is reported.
pub proof fn law_default_owner_roundtrip(m: Machine, a: Seq<u64>, b: Seq<u64>)
    requires
        driver_get_default_owner(driver_register_default_owner(m, a).0, b).1 == OK,
    ensures
        crate::mem::load_u32(
            driver_get_default_owner(driver_register_default_owner(m, a).0, b).0.mem,
            arg(b, 0) as int,
        ) == Some(lo(arg(a, 0))),
{
    crate::mem::law_read_back_u32(m.mem, arg(b, 0) as int, lo(arg(a, 0)));
}

/// Deleting a graphics event undoes its registration when the event was not
/// registered before.
pub proof fn law_delete_undoes_add(m: Machine, a: Seq<u64>)
    requires
        m.equeues.dom().contains(arg(a, 0)),
        !m.events.dom().contains((arg(a, 0), arg(a, 1))),
    ensures
        driver_delete_eq_event(driver_add_eq_event(m, a).0, a) == (m, OK),
{
    let after = driver_delete_eq_event(driver_add_eq_event(m, a).0, a).0;
    assert(after.events =~= m.events);
}

} // verus!
