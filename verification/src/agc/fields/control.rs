//! The packets of state, control flow, markers and workloads.
use vstd::prelude::*;
use crate::agc::fields::{
    cursor, dword, joined, lemma_halves, lemma_headers, lemma_masked_halves, lemma_packets, qword,
    returned, room,
};
use crate::agc::packet::lo;
use crate::context::{arg, Machine};
use crate::libsce_agc::AgcExport;

verus! {

/// The masks that align an address down to 4, 8 and 64 bytes.
pub(crate) proof fn lemma_address_masks()
    ensures
        (0xFFFF_FFFF_0000_0000u64 | 0xFFFF_FFFCu32 as u64) == 0xFFFF_FFFF_FFFF_FFFCu64,
        (0xFFFF_FFFF_0000_0000u64 | 0xFFFF_FFF8u32 as u64) == 0xFFFF_FFFF_FFFF_FFF8u64,
        (0xFFFF_FFFF_0000_0000u64 | (!7u32) as u64) == 0xFFFF_FFFF_FFFF_FFF8u64,
        (0xFFFF_FFFF_0000_0000u64 | (!0x3Fu32) as u64) == 0xFFFF_FFFF_FFFF_FFC0u64,
{
    assert({
        &&& (0xFFFF_FFFF_0000_0000u64 | 0xFFFF_FFFCu32 as u64) == 0xFFFF_FFFF_FFFF_FFFCu64
        &&& (0xFFFF_FFFF_0000_0000u64 | 0xFFFF_FFF8u32 as u64) == 0xFFFF_FFFF_FFFF_FFF8u64
        &&& (0xFFFF_FFFF_0000_0000u64 | (!7u32) as u64) == 0xFFFF_FFFF_FFFF_FFF8u64
        &&& (0xFFFF_FFFF_0000_0000u64 | (!0x3Fu32) as u64) == 0xFFFF_FFFF_FFFF_FFC0u64
    }) by (bit_vector);
}

/// An aligned address is what is left of it when it is aligned down.
pub(crate) proof fn lemma_aligned_4(x: u64)
    requires
        x & 3 == 0,
    ensures
        x & 0xFFFF_FFFF_FFFF_FFFC == x,
{
    assert(x & 3 == 0 ==> x & 0xFFFF_FFFF_FFFF_FFFC == x) by (bit_vector);
}

/// The low 48 bits of an address, in two DWORDs.
proof fn lemma_low_48(x: u64)
    ensures
        joined(lo(x), ((x >> 32) & 0xFFFF) as u32) == x & 0x0000_FFFF_FFFF_FFFF,
{
    let low = lo(x);
    let high = ((x >> 32) & 0xFFFF) as u32;
    assert(low + 0x1_0000_0000 * high == x & 0x0000_FFFF_FFFF_FFFF) by (bit_vector)
        requires
            low == x as u32,
            high == ((x >> 32) & 0xFFFF) as u32,
    ;
}

/// An event of a compute queue has a type below 0x40. The two counter samples
/// (0x38 and 0x39) hold the whole address, aligned down to eight bytes; the others
/// hold their type alone.
pub proof fn law_acb_event_write_packet(m: Machine, a: Seq<u64>)
    ensures
        ({
            let (after, p) = returned(AgcExport::AcbEventWrite, m, a);
            let kind = (arg(a, 1) & 0xFF) as u32;
            let sample = kind == 0x38 || kind == 0x39;
            &&& kind >= 0x40 ==> p == 0 && after == m
            &&& sample && room(m, arg(a, 0), 4) ==> p == cursor(m, arg(a, 0))
            &&& kind < 0x40 && !sample && room(m, arg(a, 0), 2) ==> p == cursor(m, arg(a, 0))
            &&& p != 0 && sample ==> {
                &&& dword(after.mem, p, 0) == Some(0xC002_4600u32)
                &&& dword(after.mem, p, 1) == Some((0x100 + kind) as u32)
                &&& qword(after.mem, p, 2) == Some(arg(a, 2) & 0xFFFF_FFFF_FFFF_FFF8)
            }
            &&& p != 0 && !sample ==> {
                &&& dword(after.mem, p, 0) == Some(0xC000_4600u32)
                &&& dword(after.mem, p, 1) == Some(kind)
            }
        }),
{
    lemma_headers();
    lemma_packets();
    lemma_masked_halves(arg(a, 2), !7u32);
    lemma_address_masks();
    let kind = (arg(a, 1) & 0xFF) as u32;
    assert({
        &&& (kind & !1u32 == 0x38) == (kind == 0x38 || kind == 0x39)
        &&& kind < 0x40 ==> kind & 0x3F == kind && kind | 0x100 == 0x100 + kind
    }) by (bit_vector);
}

/// A reset of the graphics queue is accepted with the full mask and no state
/// only.
pub proof fn law_reset_queue_packet(m: Machine, a: Seq<u64>)
    ensures
        ({
            let (after, p) = returned(AgcExport::DcbResetQueue, m, a);
            let accepted = arg(a, 1) == 0x3FF && arg(a, 2) == 0;
            &&& !accepted ==> p == 0 && after == m
            &&& accepted && room(m, arg(a, 0), 2) ==> p == cursor(m, arg(a, 0))
            &&& p != 0 ==> {
                &&& accepted
                &&& dword(after.mem, p, 0) == Some(0xC000_1014u32)
                &&& dword(after.mem, p, 1) == Some(0u32)
            }
        }),
{
    lemma_headers();
    lemma_halves();
    lemma_packets();
}

/// A reset of a compute queue.
pub proof fn law_acb_reset_queue_packet(m: Machine, a: Seq<u64>)
    ensures
        ({
            let (after, p) = returned(AgcExport::AcbResetQueue, m, a);
            &&& room(m, arg(a, 0), 2) ==> p == cursor(m, arg(a, 0))
            &&& p != 0 ==> {
                &&& dword(after.mem, p, 0) == Some(0xC000_1024u32)
                &&& dword(after.mem, p, 1) == Some(0u32)
            }
        }),
{
    lemma_headers();
    lemma_halves();
    lemma_packets();
}

/// A wait for a flip holds the display handle and the buffer index.
pub proof fn law_wait_until_safe_packet(m: Machine, a: Seq<u64>)
    ensures
        ({
            let (after, p) = returned(AgcExport::DcbWaitUntilSafe, m, a);
            &&& room(m, arg(a, 0), 7) ==> p == cursor(m, arg(a, 0))
            &&& p != 0 ==> {
                &&& dword(after.mem, p, 0) == Some(0xC005_1018u32)
                &&& dword(after.mem, p, 1) == Some(arg(a, 1) as u32)
                &&& dword(after.mem, p, 2) == Some(arg(a, 2) as u32)
                &&& dword(after.mem, p, 3) == Some(0u32)
                &&& dword(after.mem, p, 4) == Some(0u32)
                &&& dword(after.mem, p, 5) == Some(0u32)
                &&& dword(after.mem, p, 6) == Some(0u32)
            }
        }),
{
    lemma_headers();
    lemma_halves();
    lemma_packets();
}

/// The end of a marker.
pub proof fn law_pop_marker_packet(m: Machine, a: Seq<u64>)
    ensures
        ({
            let (after, p) = returned(AgcExport::DcbPopMarker, m, a);
            &&& room(m, arg(a, 0), 2) ==> p == cursor(m, arg(a, 0))
            &&& p != 0 ==> {
                &&& dword(after.mem, p, 0) == Some(0xC000_1030u32)
                &&& dword(after.mem, p, 1) == Some(0u32)
            }
        }),
{
    lemma_headers();
    lemma_halves();
    lemma_packets();
}

/// The filler is one DWORD.
pub proof fn law_filler_packet(m: Machine, a: Seq<u64>)
    ensures
        ({
            let (after, p) = returned(AgcExport::UnknownFiller, m, a);
            &&& room(m, arg(a, 0), 1) ==> p == cursor(m, arg(a, 0))
            &&& p != 0 ==> {
                &&& dword(after.mem, p, 0) == Some(0x8000_0000u32)
            }
        }),
{
    lemma_headers();
    lemma_halves();
    lemma_packets();
}

/// A context register that is set directly: its offset in the low half of the
/// argument, 16 bits of it, and its value in the high half.
pub proof fn law_cx_register_packet(m: Machine, a: Seq<u64>)
    ensures
        ({
            let (after, p) = returned(AgcExport::DcbSetCxRegisterDirect, m, a);
            &&& room(m, arg(a, 0), 3) ==> p == cursor(m, arg(a, 0))
            &&& p != 0 ==> {
                &&& dword(after.mem, p, 0) == Some(0xC001_6900u32)
                &&& dword(after.mem, p, 1) == Some(arg(a, 1) as u32 & 0xFFFF)
                &&& dword(after.mem, p, 2) == Some((arg(a, 1) >> 32) as u32)
            }
        }),
{
    lemma_headers();
    lemma_halves();
    lemma_packets();
}

/// A shader register that is set directly: its offset in the low half of the
/// argument, 16 bits of it, and its value in the high half.
pub proof fn law_sh_register_packet(m: Machine, a: Seq<u64>)
    ensures
        ({
            let (after, p) = returned(AgcExport::DcbSetShRegisterDirect, m, a);
            &&& room(m, arg(a, 0), 3) ==> p == cursor(m, arg(a, 0))
            &&& p != 0 ==> {
                &&& dword(after.mem, p, 0) == Some(0xC001_7600u32)
                &&& dword(after.mem, p, 1) == Some(arg(a, 1) as u32 & 0xFFFF)
                &&& dword(after.mem, p, 2) == Some((arg(a, 1) >> 32) as u32)
            }
        }),
{
    lemma_headers();
    lemma_halves();
    lemma_packets();
}

/// A configuration register that is set directly: its offset in the low half of the
/// argument, 16 bits of it, and its value in the high half.
pub proof fn law_uc_register_packet(m: Machine, a: Seq<u64>)
    ensures
        ({
            let (after, p) = returned(AgcExport::DcbSetUcRegisterDirect, m, a);
            &&& room(m, arg(a, 0), 3) ==> p == cursor(m, arg(a, 0))
            &&& p != 0 ==> {
                &&& dword(after.mem, p, 0) == Some(0xC001_7900u32)
                &&& dword(after.mem, p, 1) == Some(arg(a, 1) as u32 & 0xFFFF)
                &&& dword(after.mem, p, 2) == Some((arg(a, 1) >> 32) as u32)
            }
        }),
{
    lemma_headers();
    lemma_halves();
    lemma_packets();
}

/// A list of context registers: the packet holds the count, and the whole address
/// of the list.
pub proof fn law_cx_registers_packet(m: Machine, a: Seq<u64>)
    ensures
        ({
            let (after, p) = returned(AgcExport::DcbSetCxRegsIndirect, m, a);
            &&& room(m, arg(a, 0), 4) ==> p == cursor(m, arg(a, 0))
            &&& p != 0 ==> {
                &&& dword(after.mem, p, 0) == Some(0xC002_1048u32)
                &&& dword(after.mem, p, 1) == Some(arg(a, 2) as u32)
                &&& qword(after.mem, p, 2) == Some(arg(a, 1))
            }
        }),
{
    lemma_headers();
    lemma_halves();
    lemma_packets();
}

/// A list of shader registers: the packet holds the count, and the whole address
/// of the list.
pub proof fn law_sh_registers_packet(m: Machine, a: Seq<u64>)
    ensures
        ({
            let (after, p) = returned(AgcExport::DcbSetShRegsIndirect, m, a);
            &&& room(m, arg(a, 0), 4) ==> p == cursor(m, arg(a, 0))
            &&& p != 0 ==> {
                &&& dword(after.mem, p, 0) == Some(0xC002_1044u32)
                &&& dword(after.mem, p, 1) == Some(arg(a, 2) as u32)
                &&& qword(after.mem, p, 2) == Some(arg(a, 1))
            }
        }),
{
    lemma_headers();
    lemma_halves();
    lemma_packets();
}

/// A list of configuration registers: the packet holds the count, and the whole address
/// of the list.
pub proof fn law_uc_registers_packet(m: Machine, a: Seq<u64>)
    ensures
        ({
            let (after, p) = returned(AgcExport::DcbSetUcRegsIndirect, m, a);
            &&& room(m, arg(a, 0), 4) ==> p == cursor(m, arg(a, 0))
            &&& p != 0 ==> {
                &&& dword(after.mem, p, 0) == Some(0xC002_104Cu32)
                &&& dword(after.mem, p, 1) == Some(arg(a, 2) as u32)
                &&& qword(after.mem, p, 2) == Some(arg(a, 1))
            }
        }),
{
    lemma_headers();
    lemma_halves();
    lemma_packets();
}

/// A jump holds the low 48 bits of the target, and the low 20 of its length.
pub proof fn law_jump_packet(m: Machine, a: Seq<u64>)
    ensures
        ({
            let (after, p) = returned(AgcExport::DcbJump, m, a);
            &&& room(m, arg(a, 0), 4) ==> p == cursor(m, arg(a, 0))
            &&& p != 0 ==> {
                &&& dword(after.mem, p, 0) == Some(0xC002_3F00u32)
                &&& qword(after.mem, p, 1) == Some(arg(a, 1) & 0x0000_FFFF_FFFF_FFFF)
                &&& dword(after.mem, p, 3) == Some(arg(a, 2) as u32 & 0xF_FFFF)
            }
        }),
{
    lemma_headers();
    lemma_halves();
    lemma_packets();
    lemma_low_48(arg(a, 1));
}

/// A branch holds the mode and the comparison, the whole addresses, mask and
/// reference (addresses aligned down), and for each way the buffer, its length and
/// its cache policy.
pub proof fn law_branch_packet(m: Machine, a: Seq<u64>)
    ensures
        ({
            let (after, p) = returned(AgcExport::CbBranch, m, a);
            &&& room(m, arg(a, 0), 14) ==> p == cursor(m, arg(a, 0))
            &&& p != 0 ==> {
                &&& dword(after.mem, p, 0) == Some(0xC00C_3F00u32)
                &&& dword(after.mem, p, 1) == Some(((arg(a, 1) & 0x3) as u32) | (((arg(a, 2) & 0x7) as u32) << 8))
                &&& qword(after.mem, p, 2) == Some(arg(a, 3) & 0xFFFF_FFFF_FFFF_FFF8)
                &&& qword(after.mem, p, 4) == Some(arg(a, 4))
                &&& qword(after.mem, p, 6) == Some(arg(a, 5))
                &&& qword(after.mem, p, 8) == Some(arg(a, 7) & 0xFFFF_FFFF_FFFF_FFFC)
                &&& dword(after.mem, p, 10) == Some((arg(a, 8) as u32 & 0xF_FFFF) | (((arg(a, 6) & 0x3) as u32) << 28))
                &&& qword(after.mem, p, 11) == Some(arg(a, 10) & 0xFFFF_FFFF_FFFF_FFFC)
                &&& dword(after.mem, p, 13) == Some((arg(a, 11) as u32 & 0xF_FFFF) | (((arg(a, 9) & 0x3) as u32) << 28))
            }
        }),
{
    lemma_headers();
    lemma_halves();
    lemma_packets();
    lemma_masked_halves(arg(a, 3), 0xFFFF_FFF8u32);
    lemma_masked_halves(arg(a, 7), 0xFFFF_FFFCu32);
    lemma_masked_halves(arg(a, 10), 0xFFFF_FFFCu32);
    lemma_address_masks();
}

/// A stall is accepted for modes 0 and 1.
pub proof fn law_stall_packet(m: Machine, a: Seq<u64>)
    ensures
        ({
            let (after, p) = returned(AgcExport::DcbStallCommandBufferParser, m, a);
            let accepted = arg(a, 1) & 0xFF <= 1;
            &&& !accepted ==> p == 0 && after == m
            &&& accepted && room(m, arg(a, 0), 2) ==> p == cursor(m, arg(a, 0))
            &&& p != 0 ==> {
                &&& accepted
                &&& dword(after.mem, p, 0) == Some(0xC000_1000u32)
                &&& dword(after.mem, p, 1) == Some(0u32)
            }
        }),
{
    lemma_headers();
    lemma_halves();
    lemma_packets();
}

/// A predicate holds the whole address and the control word.
pub proof fn law_predication_packet(m: Machine, a: Seq<u64>)
    ensures
        ({
            let (after, p) = returned(AgcExport::DcbSetPredication, m, a);
            &&& room(m, arg(a, 0), 4) ==> p == cursor(m, arg(a, 0))
            &&& p != 0 ==> {
                &&& dword(after.mem, p, 0) == Some(0xC002_2200u32)
                &&& qword(after.mem, p, 1) == Some(arg(a, 1))
                &&& dword(after.mem, p, 3) == Some(arg(a, 2) as u32)
            }
        }),
{
    lemma_headers();
    lemma_halves();
    lemma_packets();
}

/// The packet with two 2-bit fields and a flag.
pub proof fn law_krz_packet(m: Machine, a: Seq<u64>)
    ensures
        ({
            let (after, p) = returned(AgcExport::UnknownKrzWekV120, m, a);
            &&& room(m, arg(a, 0), 3) ==> p == cursor(m, arg(a, 0))
            &&& p != 0 ==> {
                &&& dword(after.mem, p, 0) == Some(0xC001_7A00u32)
                &&& dword(after.mem, p, 1) == Some(0x2000_0243u32)
                &&& dword(after.mem, p, 2) == Some(0x400u32 | (arg(a, 1) as u32 & 0x3) | ((arg(a, 2) as u32 & 0x3) << 6) | ((arg(a, 3) as u32 & 0x1) << 14))
            }
        }),
{
    lemma_headers();
    lemma_halves();
    lemma_packets();
}

/// A rewind holds its state in the top bit.
pub proof fn law_rewind_packet(m: Machine, a: Seq<u64>)
    ensures
        ({
            let (after, p) = returned(AgcExport::DcbRewind, m, a);
            &&& room(m, arg(a, 0), 2) ==> p == cursor(m, arg(a, 0))
            &&& p != 0 ==> {
                &&& dword(after.mem, p, 0) == Some(0xC000_5900u32)
                &&& dword(after.mem, p, 1) == Some(((arg(a, 1) & 0x1) as u32) << 31)
            }
        }),
{
    lemma_headers();
    lemma_halves();
    lemma_packets();
}

/// The end of a workload holds the stream, the id, and the 64-bit mask that has
/// that id's bit clear and every other set. Streams are 1 to 31, ids 0 to 63.
pub proof fn law_workload_complete_packet(m: Machine, a: Seq<u64>)
    ensures
        ({
            let (after, p) = returned(AgcExport::DcbSetWorkloadComplete, m, a);
            let accepted = 1 <= arg(a, 1) <= 31 && arg(a, 2) <= 63;
            &&& !accepted ==> p == 0 && after == m
            &&& accepted && room(m, arg(a, 0), 12) ==> p == cursor(m, arg(a, 0))
            &&& p != 0 ==> {
                &&& accepted
                &&& dword(after.mem, p, 0) == Some(0xC00A_1000u32)
                &&& dword(after.mem, p, 1) == Some(arg(a, 1) as u32)
                &&& dword(after.mem, p, 2) == Some(arg(a, 2) as u32)
                &&& qword(after.mem, p, 3) == Some(!(1u64 << arg(a, 2)))
                &&& dword(after.mem, p, 5) == Some(0u32)
                &&& dword(after.mem, p, 6) == Some(0u32)
                &&& dword(after.mem, p, 7) == Some(0u32)
                &&& dword(after.mem, p, 8) == Some(0u32)
                &&& dword(after.mem, p, 9) == Some(0u32)
                &&& dword(after.mem, p, 10) == Some(0u32)
                &&& dword(after.mem, p, 11) == Some(0u32)
            }
        }),
{
    lemma_headers();
    lemma_halves();
    lemma_packets();
}

/// The end of a stream holds the stream, 1 to 31.
pub proof fn law_stream_inactive_packet(m: Machine, a: Seq<u64>)
    ensures
        ({
            let (after, p) = returned(AgcExport::DcbSetWorkloadStreamInactive, m, a);
            let accepted = 1 <= arg(a, 1) <= 31;
            &&& !accepted ==> p == 0 && after == m
            &&& accepted && room(m, arg(a, 0), 2) ==> p == cursor(m, arg(a, 0))
            &&& p != 0 ==> {
                &&& accepted
                &&& dword(after.mem, p, 0) == Some(0xC000_1000u32)
                &&& dword(after.mem, p, 1) == Some(arg(a, 1) as u32)
            }
        }),
{
    lemma_headers();
    lemma_halves();
    lemma_packets();
}

/// The priming packet is five DWORDs with nothing in them.
pub proof fn law_prime_utcl2_packet(m: Machine, a: Seq<u64>)
    ensures
        ({
            let (after, p) = returned(AgcExport::PrimeUtcl2, m, a);
            &&& room(m, arg(a, 0), 5) ==> p == cursor(m, arg(a, 0))
            &&& p != 0 ==> {
                &&& dword(after.mem, p, 0) == Some(0xC003_1000u32)
                &&& dword(after.mem, p, 1) == Some(0u32)
                &&& dword(after.mem, p, 2) == Some(0u32)
                &&& dword(after.mem, p, 3) == Some(0u32)
                &&& dword(after.mem, p, 4) == Some(0u32)
            }
        }),
{
    lemma_headers();
    lemma_halves();
    lemma_packets();
}

/// A read of the level-of-detail counters holds the counter, the whole buffer
/// address aligned down to 64 bytes, and the packed options.
pub proof fn law_lod_stats_packet(m: Machine, a: Seq<u64>)
    ensures
        ({
            let (after, p) = returned(AgcExport::DcbGetLodStats, m, a);
            &&& room(m, arg(a, 0), 5) ==> p == cursor(m, arg(a, 0))
            &&& p != 0 ==> {
                &&& dword(after.mem, p, 0) == Some(0xC003_8E00u32)
                &&& dword(after.mem, p, 1) == Some(arg(a, 3) as u32)
                &&& qword(after.mem, p, 2) == Some(arg(a, 2) & 0xFFFF_FFFF_FFFF_FFC0)
                &&& dword(after.mem, p, 4) == Some((((arg(a, 1) & 0x3) as u32) << 28) | (((arg(a, 6) & 0x1) as u32) << 19) | (((arg(a, 5) & 0x1) as u32) << 18) | (((arg(a, 4) & 0xFF) as u32) << 10) | (((arg(a, 7) & 0xFF) as u32) << 2))
            }
        }),
{
    lemma_headers();
    lemma_halves();
    lemma_packets();
    lemma_masked_halves(arg(a, 2), !0x3Fu32);
    lemma_address_masks();
}

/// A copy of data holds the control word, and the whole source and destination, on
/// either queue.
pub proof fn law_copy_data_packet(m: Machine, a: Seq<u64>)
    ensures
        ({
            let (after, p) = returned(AgcExport::DcbCopyData, m, a);
            &&& room(m, arg(a, 0), 6) ==> p == cursor(m, arg(a, 0))
            &&& p != 0 ==> {
                &&& dword(after.mem, p, 0) == Some(0xC004_4000u32)
                &&& dword(after.mem, p, 1) == Some(arg(a, 1) as u32)
                &&& qword(after.mem, p, 2) == Some(arg(a, 2))
                &&& qword(after.mem, p, 4) == Some(arg(a, 3))
            }
        }),
        returned(AgcExport::AcbCopyData, m, a) == returned(AgcExport::DcbCopyData, m, a),
{
    lemma_headers();
    lemma_halves();
    lemma_packets();
}

/// A flip holds the display handle, the buffer index, the mode and the whole
/// 64-bit argument.
pub proof fn law_flip_packet(m: Machine, a: Seq<u64>)
    ensures
        ({
            let (after, p) = returned(AgcExport::DcbSetFlip, m, a);
            &&& room(m, arg(a, 0), 6) ==> p == cursor(m, arg(a, 0))
            &&& p != 0 ==> {
                &&& dword(after.mem, p, 0) == Some(0xC004_105Cu32)
                &&& dword(after.mem, p, 1) == Some(arg(a, 1) as u32)
                &&& dword(after.mem, p, 2) == Some(arg(a, 2) as u32)
                &&& dword(after.mem, p, 3) == Some(arg(a, 3) as u32)
                &&& qword(after.mem, p, 4) == Some(arg(a, 4))
            }
        }),
{
    lemma_headers();
    lemma_halves();
    lemma_packets();
}

/// An event of the graphics queue holds its type, below 0x40, and has no address.
pub proof fn law_event_write_packet(m: Machine, a: Seq<u64>)
    ensures
        ({
            let (after, p) = returned(AgcExport::DcbEventWrite, m, a);
            let accepted = arg(a, 1) & 0xFF <= 0x3F && arg(a, 2) == 0;
            &&& !accepted ==> p == 0 && after == m
            &&& accepted && room(m, arg(a, 0), 2) ==> p == cursor(m, arg(a, 0))
            &&& p != 0 ==> {
                &&& accepted
                &&& dword(after.mem, p, 0) == Some(0xC000_4600u32)
                &&& dword(after.mem, p, 1) == Some((arg(a, 1) & 0xFF) as u32)
            }
        }),
{
    lemma_headers();
    lemma_halves();
    lemma_packets();
}

/// A conditional execution holds the whole label address, which is neither null nor
/// unaligned, and the length, at most 0x3FFF.
pub proof fn law_cond_exec_packet(m: Machine, a: Seq<u64>)
    ensures
        ({
            let (after, p) = returned(AgcExport::DcbCondExec, m, a);
            let accepted = arg(a, 1) != 0 && arg(a, 1) & 3 == 0 && arg(a, 2) <= 0x3FFF;
            &&& !accepted ==> p == 0 && after == m
            &&& accepted && room(m, arg(a, 0), 5) ==> p == cursor(m, arg(a, 0))
            &&& p != 0 ==> {
                &&& accepted
                &&& dword(after.mem, p, 0) == Some(0xC003_2200u32)
                &&& qword(after.mem, p, 1) == Some(arg(a, 1))
                &&& dword(after.mem, p, 3) == Some(0u32)
                &&& dword(after.mem, p, 4) == Some(arg(a, 2) as u32)
            }
        }),
{
    lemma_headers();
    lemma_halves();
    lemma_packets();
    lemma_masked_halves(arg(a, 1), 0xFFFF_FFFCu32);
    lemma_address_masks();
    if arg(a, 1) & 3 == 0 {
        lemma_aligned_4(arg(a, 1));
    }
}
} // verus!
