//! The packets of synchronisation: acquires, releases and waits.
use vstd::prelude::*;
use crate::agc::fields::{
    cursor, dword, lemma_halves, lemma_headers, lemma_packets, qword, returned, room,
};
use crate::context::{arg, Machine};
use crate::libsce_agc::AgcExport;
use crate::mem::Mem;

verus! {

/// A wait on 32 bits of memory: the whole address, the mask, the control word and
/// the reference.
pub open spec fn waits_on_32(
    m: Mem,
    p: u64,
    control: u32,
    address: u64,
    reference: u64,
    mask: u64,
) -> bool {
    &&& dword(m, p, 0) == Some(0xC004_1028u32)
    &&& qword(m, p, 1) == Some(address)
    &&& dword(m, p, 3) == Some(mask as u32)
    &&& dword(m, p, 4) == Some(control)
    &&& dword(m, p, 5) == Some(reference as u32)
}

/// A wait on 64 bits of memory: the whole address, mask and reference, the control
/// word, and the poll interval in units of 40.
pub open spec fn waits_on_64(
    m: Mem,
    p: u64,
    control: u32,
    address: u64,
    reference: u64,
    mask: u64,
    poll: u64,
) -> bool {
    &&& dword(m, p, 0) == Some(0xC007_1058u32)
    &&& qword(m, p, 1) == Some(address)
    &&& qword(m, p, 3) == Some(mask)
    &&& qword(m, p, 5) == Some(reference)
    &&& dword(m, p, 7) == Some(control)
    &&& dword(m, p, 8) == Some(poll as u32 / 40)
}

/// A wait of the graphics queue. The width is 0 or 1, the comparison at most 7,
/// the operation at most 4 and the cache policy at most 3. Operations 2 and 3 make
/// the standard packet, whatever the width; the others wait on 32 or on 64 bits.
pub proof fn law_wait_packet(m: Machine, a: Seq<u64>)
    ensures
        ({
            let (after, p) = returned(AgcExport::DcbWaitRegMem, m, a);
            let width = (arg(a, 1) & 0xFF) as u32;
            let comparison = (arg(a, 2) & 0xFF) as u32;
            let operation = (arg(a, 3) & 0xFF) as u32;
            let accepted = width <= 1 && comparison <= 7 && operation <= 4 && (arg(a, 4) & 0xFF) as u32 <= 3;
            let standard = operation == 2 || operation == 3;
            let n: int = if standard {
                7
            } else if width == 0 {
                6
            } else {
                9
            };
            &&& !accepted ==> p == 0 && after == m
            &&& accepted && room(m, arg(a, 0), n) ==> p == cursor(m, arg(a, 0))
            &&& p != 0 && standard ==> {
                &&& dword(after.mem, p, 0) == Some(0xC005_3C00u32)
                &&& dword(after.mem, p, 1) == Some(comparison | ((operation & 1) << 8))
                &&& qword(after.mem, p, 2) == Some(arg(a, 5))
                &&& dword(after.mem, p, 4) == Some(arg(a, 6) as u32)
                &&& dword(after.mem, p, 5) == Some(arg(a, 7) as u32)
                &&& dword(after.mem, p, 6) == Some(arg(a, 8) as u32 / 40)
            }
            &&& p != 0 && !standard && width == 0 ==> waits_on_32(
                after.mem,
                p,
                comparison | (operation << 8),
                arg(a, 5),
                arg(a, 6),
                arg(a, 7),
            )
            &&& p != 0 && !standard && width == 1 ==> waits_on_64(
                after.mem,
                p,
                comparison | (operation << 8),
                arg(a, 5),
                arg(a, 6),
                arg(a, 7),
                arg(a, 8),
            )
        }),
{
    lemma_headers();
    lemma_halves();
    lemma_packets();
}

/// A wait of a compute queue: 32 or 64 bits of memory, with the comparison, at
/// most 7, as its control word.
pub proof fn law_acb_wait_packet(m: Machine, a: Seq<u64>)
    ensures
        ({
            let (after, p) = returned(AgcExport::AcbWaitRegMem, m, a);
            let width = (arg(a, 1) & 0xFF) as u32;
            let comparison = (arg(a, 2) & 0xFF) as u32;
            let accepted = width <= 1 && comparison <= 7 && arg(a, 3) & 0xFF <= 3;
            let n: int = if width == 0 {
                6
            } else {
                9
            };
            &&& !accepted ==> p == 0 && after == m
            &&& accepted && room(m, arg(a, 0), n) ==> p == cursor(m, arg(a, 0))
            &&& p != 0 && width == 0 ==> waits_on_32(
                after.mem,
                p,
                comparison,
                arg(a, 4),
                arg(a, 5),
                arg(a, 6),
            )
            &&& p != 0 && width == 1 ==> waits_on_64(
                after.mem,
                p,
                comparison,
                arg(a, 4),
                arg(a, 5),
                arg(a, 6),
                arg(a, 7),
            )
        }),
{
    lemma_headers();
    lemma_halves();
    lemma_packets();
}

/// An acquire of the graphics queue holds the engine in the top bit beside the
/// cache actions, the range in units of 256 bytes (no bound where the size is all
/// ones), the poll interval in units of 40, and the range control.
pub proof fn law_acquire_packet(m: Machine, a: Seq<u64>)
    ensures
        ({
            let (after, p) = returned(AgcExport::DcbAcquireMem, m, a);
            &&& room(m, arg(a, 0), 8) ==> p == cursor(m, arg(a, 0))
            &&& p != 0 ==> {
                &&& dword(after.mem, p, 0) == Some(0xC006_1050u32)
                &&& dword(after.mem, p, 1) == Some((((arg(a, 1) & 0xFF) as u32) << 31) | arg(a, 2) as u32)
                &&& dword(after.mem, p, 2) == Some(if arg(a, 5) == u64::MAX { 0u32 } else { (arg(a, 5) >> 8) as u32 })
                &&& dword(after.mem, p, 3) == Some(0u32)
                &&& dword(after.mem, p, 4) == Some((arg(a, 4) >> 8) as u32)
                &&& dword(after.mem, p, 5) == Some(0u32)
                &&& dword(after.mem, p, 6) == Some((arg(a, 6) as u32) / 40)
                &&& dword(after.mem, p, 7) == Some(arg(a, 3) as u32)
            }
        }),
{
    lemma_headers();
    lemma_halves();
    lemma_packets();
}

/// An acquire of a compute queue holds its range in units of 256 bytes. The range
/// must be aligned to them and below 2^40, or be without a bound.
pub proof fn law_acb_acquire_packet(m: Machine, a: Seq<u64>)
    ensures
        ({
            let (after, p) = returned(AgcExport::AcbAcquireMem, m, a);
            let accepted = (arg(a, 3) == u64::MAX || (arg(a, 3) & 0xFF == 0 && arg(a, 3) >> 40 == 0)) && arg(a, 2) & 0xFF == 0 && arg(a, 2) >> 40 == 0;
            &&& !accepted ==> p == 0 && after == m
            &&& accepted && room(m, arg(a, 0), 8) ==> p == cursor(m, arg(a, 0))
            &&& p != 0 ==> {
                &&& accepted
                &&& dword(after.mem, p, 0) == Some(0xC006_1050u32)
                &&& dword(after.mem, p, 1) == Some(0x8000_0000u32)
                &&& dword(after.mem, p, 2) == Some(if arg(a, 3) == u64::MAX { 0u32 } else { (arg(a, 3) >> 8) as u32 })
                &&& dword(after.mem, p, 3) == Some(0u32)
                &&& dword(after.mem, p, 4) == Some((arg(a, 2) >> 8) as u32)
                &&& dword(after.mem, p, 5) == Some(0u32)
                &&& dword(after.mem, p, 6) == Some((arg(a, 4) as u32) / 40)
                &&& dword(after.mem, p, 7) == Some(arg(a, 1) as u32)
            }
        }),
{
    lemma_headers();
    lemma_halves();
    lemma_packets();
}

/// A release holds the event type and the cache policy, the range control with the
/// data selection and the interrupt selection, and the whole destination and data.
/// Selections beyond the known ones, and any use of the data share, are refused.
pub proof fn law_release_packet(m: Machine, a: Seq<u64>)
    ensures
        ({
            let (after, p) = returned(AgcExport::CbReleaseMem, m, a);
            let accepted = arg(a, 3) & 0xFF <= 1 && arg(a, 6) & 0xFF <= 3 && arg(a, 8) & 0xFFFF == 0 && arg(a, 9) & 0xFFFF <= 2 && arg(a, 10) & 0xFF <= 3;
            &&& !accepted ==> p == 0 && after == m
            &&& accepted && room(m, arg(a, 0), 8) ==> p == cursor(m, arg(a, 0))
            &&& p != 0 ==> {
                &&& accepted
                &&& dword(after.mem, p, 0) == Some(0xC006_1060u32)
                &&& dword(after.mem, p, 1) == Some(((arg(a, 1) & 0xFF) as u32) | (((arg(a, 4) & 0xFF) as u32) << 8))
                &&& dword(after.mem, p, 2) == Some(((arg(a, 2) & 0xFFFF) as u32) | (((arg(a, 6) & 0xFF) as u32) << 16) | (((arg(a, 10) & 0xFF) as u32) << 24))
                &&& qword(after.mem, p, 3) == Some(arg(a, 5))
                &&& qword(after.mem, p, 5) == Some(arg(a, 7))
                &&& dword(after.mem, p, 7) == Some(arg(a, 11) as u32)
            }
        }),
{
    lemma_headers();
    lemma_halves();
    lemma_packets();
}
} // verus!
