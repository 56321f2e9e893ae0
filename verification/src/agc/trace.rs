//! A look at the caller's stack, for diagnostics.
use vstd::prelude::*;
use crate::mem::{load_u64, GuestMemory, Mem};

verus! {

/// Where guest code is loaded.
pub const CODE_BASE: u64 = 0x0000_1000_0000_0000;

/// How much room guest code has.
pub const CODE_SPAN: u64 = 0x1_0000_0000;

/// How many stack slots are looked at.
pub const STACK_SLOTS: u64 = 1024;

/// The words of the stack at `rsp`, from `slot` on, that point into guest code,
/// as offsets into the code. The walk ends at the first slot that cannot be
/// read, and once `depth` words were found, `found` of them before.
pub open spec fn stack_chain(m: Mem, rsp: u64, slot: nat, found: nat, depth: nat) -> Seq<u64>
    decreases STACK_SLOTS - slot,
{
    if slot >= STACK_SLOTS {
        Seq::empty()
    } else {
        match load_u64(m, rsp + 8 * slot) {
            None => Seq::empty(),
            Some(v) => if CODE_BASE <= v < CODE_BASE + CODE_SPAN {
                if found + 1 >= depth {
                    seq![(v - CODE_BASE) as u64]
                } else {
                    seq![(v - CODE_BASE) as u64] + stack_chain(m, rsp, slot + 1, found + 1, depth)
                }
            } else {
                stack_chain(m, rsp, slot + 1, found, depth)
            },
        }
    }
}

/// The return addresses on the caller's stack, as offsets into guest code;
/// `None` when the stack is not known.
pub fn agc_guest_stack_chain(mem: &GuestMemory, rsp: u64, depth: usize) -> (r: Option<Vec<u64>>)
    ensures
        r is Some == (rsp != 0),
        r is Some ==> r->0@ == stack_chain(mem@, rsp, 0, 0, depth as nat),
{
    if rsp == 0 {
        return None;
    }
    let mut out: Vec<u64> = Vec::new();
    let mut slot: u64 = 0;
    assert(out@ + stack_chain(mem@, rsp, 0, 0, depth as nat) =~= stack_chain(
        mem@,
        rsp,
        0,
        0,
        depth as nat,
    ));
    while slot < STACK_SLOTS
        invariant
            rsp != 0,
            slot <= STACK_SLOTS,
            out@.len() <= slot,
            stack_chain(mem@, rsp, 0, 0, depth as nat) == out@ + stack_chain(
                mem@,
                rsp,
                slot as nat,
                out@.len(),
                depth as nat,
            ),
        decreases STACK_SLOTS - slot,
    {
        let ghost all = stack_chain(mem@, rsp, 0, 0, depth as nat);
        match mem.read_u64(rsp, 8 * slot) {
            None => {
                assert(all =~= out@);
                return Some(out);
            },
            Some(v) => {
                if CODE_BASE <= v && v < CODE_BASE + CODE_SPAN {
                    out.push(v - CODE_BASE);
                    if out.len() >= depth {
                        assert(all =~= out@);
                        return Some(out);
                    }
                    assert(all =~= out@ + stack_chain(
                        mem@,
                        rsp,
                        (slot + 1) as nat,
                        out@.len(),
                        depth as nat,
                    ));
                }
            },
        }
        slot += 1;
    }
    assert(stack_chain(mem@, rsp, 0, 0, depth as nat) =~= out@);
    Some(out)
}

} // verus!
