//! What the driver keeps of its registrations: owners, resources and events, each
//! against the arguments of the call that registered it.
use vstd::prelude::*;
use crate::agc::driver::{
    driver_get_default_owner, driver_query_resource_memory, driver_register_owner,
    driver_register_resource, free_owner, get_resource_max_name_length, registration_bytes,
};
use crate::agc::fields::{lemma_put_u32_keeps, lemma_put_u64_keeps, returned};
use crate::context::{arg, Machine};
use crate::libsce_agc::AgcExport;
use crate::mem::{law_read_back_u32, law_read_back_u64, load_u32, load_u64, mapped};
use crate::text::{cstring, lossy_text};

verus! {

/// The number can be given to a new owner.
pub open spec fn is_free(m: Machine, owner: int) -> bool {
    owner != m.agc.default_owner && !m.owners.dom().contains(owner as u64)
}

proof fn lemma_first_free(m: Machine, from: u32)
    requires
        from != 0,
    ensures
        ({
            let owner = free_owner(m.owners, m.agc.default_owner, from);
            &&& owner != 0 ==> owner >= from && is_free(m, owner as int)
            &&& owner != 0 ==> forall|k: int| from <= k < owner ==> !#[trigger] is_free(m, k)
            &&& owner == 0 ==> forall|k: int| from <= k <= u32::MAX ==> !#[trigger] is_free(m, k)
        }),
    decreases 0x1_0000_0000 - from,
{
    if !is_free(m, from as int) && from != u32::MAX {
        lemma_first_free(m, (from + 1) as u32);
        let owner = free_owner(m.owners, m.agc.default_owner, (from + 1) as u32);
        if owner != 0 {
            assert forall|k: int| from <= k < owner implies !#[trigger] is_free(m, k) by {
                assert(k == from || from + 1 <= k);
            }
        } else {
            assert forall|k: int| from <= k <= u32::MAX implies !#[trigger] is_free(m, k) by {
                assert(k == from || from + 1 <= k);
            }
        }
    }
}

/// A new owner gets the first free number from the next one on, which is stored,
/// and is known by the text that was passed, at most 255 bytes of it. Null
/// arguments, an unreadable name, and more owners than were announced are refused.
pub proof fn law_registered_owner(m: Machine, a: Seq<u64>)
    requires
        m.agc.next_owner != 0,
    ensures
        ({
            let (after, code) = returned(AgcExport::DriverRegisterOwner, m, a);
            let name = cstring(m.mem, arg(a, 1) as int, 255);
            let owner = load_u32(after.mem, arg(a, 0) as int)->0;
            let full = m.agc.max_owners != 0 && m.owners.dom().len() >= m.agc.max_owners;
            &&& arg(a, 0) == 0 || arg(a, 1) == 0 || name is None || full ==> code == 0x8002_0016
                && after == m
            &&& arg(a, 0) != 0 && arg(a, 1) != 0 && name is Some && !full && code != 0 ==> code
                == 0x8002_0016 || code == 0x8002_000E
            &&& arg(a, 0) != 0 && arg(a, 1) != 0 && name is Some && !full && mapped(
                m.mem,
                arg(a, 0) as int,
                4,
            ) && is_free(m, m.agc.next_owner as int) ==> code == 0 && owner == m.agc.next_owner
            &&& code == 0 ==> {
                &&& load_u32(after.mem, arg(a, 0) as int) is Some
                &&& owner >= m.agc.next_owner
                &&& is_free(m, owner as int)
                &&& forall|k: int| m.agc.next_owner <= k < owner ==> !#[trigger] is_free(m, k)
                &&& after.owners == m.owners.insert(owner as u64, lossy_text(name->0))
                &&& after.agc.next_owner == (owner + 1) % 0x1_0000_0000
                &&& after.resources == m.resources
            }
        }),
{
    let owner = free_owner(m.owners, m.agc.default_owner, m.agc.next_owner);
    lemma_first_free(m, m.agc.next_owner);
    lemma_put_u32_keeps(m.mem, arg(a, 0) as int, owner, 0, 0);
    if driver_register_owner(m, a).1 == 0 {
        law_read_back_u32(m.mem, arg(a, 0) as int, owner);
    }
}

/// A resource is registered for a known owner, or for the default one, under the
/// next handle, which is stored; its address, size, name, type and flags are those
/// of the call.
pub proof fn law_registered_resource(m: Machine, a: Seq<u64>)
    ensures
        ({
            let (after, code) = returned(AgcExport::DriverRegisterResource, m, a);
            let owner = arg(a, 1) as u32;
            let name = cstring(m.mem, arg(a, 4) as int, 255);
            let known = owner == m.agc.default_owner || m.owners.dom().contains(owner as u64);
            let valid = arg(a, 0) != 0 && arg(a, 2) != 0 && arg(a, 3) != 0 && known && name is Some;
            let handle = m.agc.next_resource;
            &&& !valid ==> code == 0x8002_0016 && after == m
            &&& valid && handle != 0 && mapped(m.mem, arg(a, 0) as int, 4) ==> code == 0
            &&& code == 0 ==> {
                &&& load_u32(after.mem, arg(a, 0) as int) == Some(handle)
                &&& handle != 0
                &&& after.agc.next_resource == (handle + 1) % 0x1_0000_0000
                &&& after.resources.dom().contains(handle as u64)
                &&& after.resources[handle as u64].owner == owner
                &&& after.resources[handle as u64].address == arg(a, 2)
                &&& after.resources[handle as u64].size == arg(a, 3)
                &&& after.resources[handle as u64].name == lossy_text(name->0)
                &&& after.resources[handle as u64].resource_type == arg(a, 5) as u32
                &&& after.resources[handle as u64].flags == arg(a, 6) as u32
                &&& after.owners == m.owners
                &&& forall|k: u64|
                    k != handle && m.resources.dom().contains(k) ==> #[trigger] after.resources[k]
                        == m.resources[k]
            }
        }),
{
    lemma_put_u32_keeps(m.mem, arg(a, 0) as int, m.agc.next_resource, 0, 0);
    if driver_register_resource(m, a).1 == 0 {
        law_read_back_u32(m.mem, arg(a, 0) as int, m.agc.next_resource);
    }
}

/// Initialising the registration forgets every owner and resource, counts from one
/// again, and takes as many owners as were announced, at least one and at most what
/// 32 bits hold.
pub proof fn law_registration_starts_anew(m: Machine, a: Seq<u64>)
    ensures
        ({
            let (after, code) = returned(AgcExport::DriverInitResourceRegistration, m, a);
            let valid = arg(a, 0) != 0 && arg(a, 1) != 0 && 1 <= arg(a, 2) <= 0xFFFF_FFFF;
            &&& !valid ==> code == 0x8002_0016 && after == m
            &&& valid ==> {
                &&& code == 0
                &&& forall|k: u64| !#[trigger] after.owners.dom().contains(k)
                &&& forall|k: u64| !#[trigger] after.resources.dom().contains(k)
                &&& after.agc.next_owner == 1 && after.agc.next_resource == 1
                &&& after.agc.default_owner == 1
                &&& after.agc.max_owners == arg(a, 2)
                &&& after.agc.registration_initialized
                &&& after.mem == m.mem
            }
        }),
{
}

/// The memory that a registration takes: 0x118 bytes for each resource and 0x1E0 for
/// each owner, of both at least one.
pub proof fn law_registration_memory(m: Machine, a: Seq<u64>)
    ensures
        ({
            let (after, code) = returned(AgcExport::DriverQueryResourceMemory, m, a);
            let bytes = 0x118 * arg(a, 1) + 0x1E0 * arg(a, 2);
            let valid = arg(a, 0) != 0 && arg(a, 1) != 0 && arg(a, 2) != 0 && bytes <= u64::MAX;
            &&& !valid ==> code == 0x8002_0016 && after == m
            &&& valid && mapped(m.mem, arg(a, 0) as int, 8) ==> code == 0
            &&& code == 0 ==> load_u64(after.mem, arg(a, 0) as int) == Some(bytes as u64)
        }),
        ({
            let (after, code) = returned(AgcExport::GetResourceMaxNameLength, m, a);
            &&& arg(a, 0) == 0 ==> code == 0x8002_0016 && after == m
            &&& arg(a, 0) != 0 && mapped(m.mem, arg(a, 0) as int, 4) ==> code == 0
            &&& code == 0 ==> load_u32(after.mem, arg(a, 0) as int) == Some(256u32)
        }),
{
    let bytes = (0x118 * arg(a, 1) + 0x1E0 * arg(a, 2)) as u64;
    lemma_put_u64_keeps(m.mem, arg(a, 0) as int, bytes, 0, 0);
    lemma_put_u32_keeps(m.mem, arg(a, 0) as int, 256, 0, 0);
    if driver_query_resource_memory(m, a).1 == 0 {
        law_read_back_u64(m.mem, arg(a, 0) as int, bytes);
    }
    if get_resource_max_name_length(m, a).1 == 0 {
        law_read_back_u32(m.mem, arg(a, 0) as int, 256);
    }
}

/// The default owner is the low DWORD of what was recorded, and is reported as it
/// was recorded.
pub proof fn law_default_owner(m: Machine, a: Seq<u64>)
    ensures
        returned(AgcExport::DriverRegisterDefaultOwner, m, a).1 == 0,
        returned(AgcExport::DriverRegisterDefaultOwner, m, a).0.agc.default_owner == arg(a, 0) as u32,
        ({
            let (after, code) = returned(AgcExport::DriverGetDefaultOwner, m, a);
            &&& arg(a, 0) == 0 ==> code == 0x8002_0016 && after == m
            &&& arg(a, 0) != 0 && mapped(m.mem, arg(a, 0) as int, 4) ==> code == 0
            &&& arg(a, 0) != 0 && code != 0 ==> code == 0x8002_000E && after == m
            &&& code == 0 ==> load_u32(after.mem, arg(a, 0) as int) == Some(m.agc.default_owner)
        }),
{
    lemma_put_u32_keeps(m.mem, arg(a, 0) as int, m.agc.default_owner, 0, 0);
    if driver_get_default_owner(m, a).1 == 0 {
        law_read_back_u32(m.mem, arg(a, 0) as int, m.agc.default_owner);
    }
}

/// A graphics event is registered with a known queue under its id: it has the
/// graphics filter (-14) and the caller's data, and has not fired. It is deleted from
/// the same place, and no other registration changes.
pub proof fn law_registered_event(m: Machine, a: Seq<u64>, k: (u64, u64))
    ensures
        ({
            let (after, code) = returned(AgcExport::DriverAddEqEvent, m, a);
            let at = (arg(a, 0), arg(a, 1));
            let known = m.equeues.dom().contains(arg(a, 0));
            &&& !known ==> code == 0x8002_0003 && after == m
            &&& known ==> {
                &&& code == 0
                &&& after.events.dom().contains(at)
                &&& after.events[at].udata == arg(a, 2)
                &&& after.events[at].filter == -14
                &&& !after.events[at].triggered
                &&& after.events[at].fflags == 0 && after.events[at].data == 0
                &&& k != at ==> after.events.dom().contains(k) == m.events.dom().contains(k)
                &&& k != at && m.events.dom().contains(k) ==> after.events[k] == m.events[k]
            }
        }),
        ({
            let (after, code) = returned(AgcExport::DriverDeleteEqEvent, m, a);
            let at = (arg(a, 0), arg(a, 1));
            let known = m.equeues.dom().contains(arg(a, 0));
            &&& !known ==> code == 0x8002_0003 && after == m
            &&& known ==> {
                &&& code == 0
                &&& !after.events.dom().contains(at)
                &&& k != at ==> after.events.dom().contains(k) == m.events.dom().contains(k)
                &&& k != at && m.events.dom().contains(k) ==> after.events[k] == m.events[k]
            }
        }),
{
}

/// A suspend point is one more wait for the GPU, and nothing else.
pub proof fn law_suspend_point_waits(m: Machine, a: Seq<u64>)
    ensures
        ({
            let (after, code) = returned(AgcExport::SuspendPoint, m, a);
            &&& code == 0
            &&& after.gpu.waits == (m.gpu.waits + 1) % 0x1_0000_0000_0000_0000
            &&& after.gpu.submissions == m.gpu.submissions && after.gpu.flips == m.gpu.flips
            &&& after.mem == m.mem && after.agc == m.agc
        }),
{
}

/// Where the answer cannot be written, a registration fails, and neither the owner nor
/// the resource is kept.
pub proof fn law_unwritten_registrations(m: Machine, a: Seq<u64>)
    requires
        arg(a, 0) != 0,
        !mapped(m.mem, arg(a, 0) as int, 4),
    ensures
        ({
            let (after, code) = returned(AgcExport::DriverRegisterOwner, m, a);
            code == 0x8002_0016 || code == 0x8002_000E && after.owners == m.owners && after.mem
                == m.mem
        }),
        ({
            let (after, code) = returned(AgcExport::DriverRegisterResource, m, a);
            &&& code == 0x8002_0016 || code == 0x8002_000E
            &&& code == 0x8002_000E ==> !after.resources.dom().contains(m.agc.next_resource as u64)
                && after.mem == m.mem && after.owners == m.owners
        }),
        returned(AgcExport::GetResourceMaxNameLength, m, a) == (m, 0x8002_000Eu64),
        ({
            let (after, code) = returned(AgcExport::DriverQueryResourceMemory, m, a);
            (code == 0x8002_0016 || code == 0x8002_000E) && after == m
        }),
{
    let at = arg(a, 0) as int;
    let owner = free_owner(m.owners, m.agc.default_owner, m.agc.next_owner);
    lemma_put_u32_keeps(m.mem, at, owner, 0, 0);
    lemma_put_u32_keeps(m.mem, at, m.agc.next_resource, 0, 0);
    lemma_put_u32_keeps(m.mem, at, 256, 0, 0);
    if mapped(m.mem, at, 8) {
        assert forall|x: int| at <= x < at + 4 implies #[trigger] m.mem.dom().contains(x) by {}
    }
    lemma_put_u64_keeps(m.mem, at, registration_bytes(arg(a, 1), arg(a, 2)) as u64, 0, 0);
}

} // verus!
