//! The packets of draws and dispatches.
use vstd::prelude::*;
use crate::agc::builders::draw_initiator;
use crate::agc::data::{dcb_draw_index, index_binding_words};
use crate::agc::fields::control::lemma_address_masks;
use crate::agc::fields::{
    cursor, dword, lemma_halves, lemma_headers, lemma_masked_halves, lemma_packets,
    lemma_put_u64_keeps, lemma_room, lemma_words_at, lemma_words_fit,
    qword, returned, room,
};
use crate::agc::laws::{
    law_packet_reads_back, law_packets_stand_end_to_end, lemma_emit_at, lemma_put_u64_elsewhere,
    lemma_write_words_elsewhere,
};
use crate::agc::packet::{allocate, emit_at, header, IT_DRAW_INDEX_2, R_ZERO};
use crate::context::{arg, Machine};
use crate::libsce_agc::AgcExport;
use crate::mem::{load_u32, load_u64};

verus! {

/// The draw of a multi-instanced draw starts no instance stepping where the
/// modifier's bit 32 is set, and follows the modifier's bit 8 otherwise.
pub proof fn law_draw_initiator(modifier: u64)
    ensures
        modifier / 0x1_0000_0000 % 2 == 1 ==> draw_initiator(modifier) == 0,
        modifier / 0x1_0000_0000 % 2 == 0 ==> draw_initiator(modifier) == 0x20 * (modifier / 0x100
            % 2),
{
    assert({
        &&& (modifier & (1u64 << 32) != 0) == (modifier / 0x1_0000_0000 % 2 == 1)
        &&& ((modifier as u32) >> 3) & 0x20 == 0x20 * (modifier / 0x100 % 2)
    }) by (bit_vector);
}

/// Behind a packet there is room for what the buffer had room for together with it.
proof fn lemma_room_behind(m: Machine, cb: u64, words: Seq<u32>, n: int)
    requires
        n > 0,
        0 < words.len() <= 0x1_0000_0000,
        room(m, cb, words.len() + n),
        cursor(m, cb) + 4 * (words.len() + n) <= cb + 0x10 || cb + 0x34 <= cursor(m, cb),
    ensures
        emit_at(m, cb, words).1 == Some(cursor(m, cb)),
        room(emit_at(m, cb, words).0, cb, n),
        cursor(emit_at(m, cb, words).0, cb) == cursor(m, cb) + 4 * words.len(),
{
    let k = words.len() as u64;
    let up = cursor(m, cb) as int;
    assert forall|i: int| up <= i < up + 4 * k implies #[trigger] m.mem.dom().contains(i) by {}
    assert forall|i: int| up + 4 * k <= i < up + 4 * k + 4 * n implies #[trigger] m.mem.dom().contains(
        i,
    ) by {}
    assert(room(m, cb, k as int));
    lemma_room(m, cb, k);
    let m1 = allocate(m, cb, k).0;
    let after = emit_at(m, cb, words).0;
    let v = (up + 4 * k) as u64;
    lemma_put_u64_keeps(m.mem, cb + 0x10, v, up + 4 * k, (4 * n) as nat);
    lemma_words_fit(m1.mem, up, words, up + 4 * k, (4 * n) as nat);
    lemma_put_u64_elsewhere(m.mem, cb + 0x10, v, cb + 0x18, 8);
    lemma_put_u64_elsewhere(m.mem, cb + 0x10, v, cb + 0x30, 4);
    lemma_write_words_elsewhere(m1.mem, up, words, cb + 0x18, 8);
    lemma_write_words_elsewhere(m1.mem, up, words, cb + 0x30, 4);
    lemma_emit_at(m, cb, words);
}

/// An indexed draw that returns an address has bound the whole index address
/// that was passed and its index count there, and has issued a draw of that many
/// indices behind the binding. Only the plain modifier is accepted. (A packet
/// that is written over the buffer's own cursor is left out.)
pub proof fn law_draw_index_packets(m: Machine, a: Seq<u64>)
    ensures
        ({
            let (after, p) = returned(AgcExport::DcbDrawIndex, m, a);
            let cb = arg(a, 0);
            &&& arg(a, 3) != 0x4000_0000 ==> p == 0 && after == m
            &&& p != 0 ==> arg(a, 3) == 0x4000_0000 && p == cursor(m, cb)
            &&& arg(a, 3) == 0x4000_0000 && room(m, cb, 10) && (cursor(m, cb) + 40 <= cb + 0x10
                || cb + 0x34 <= cursor(m, cb)) ==> p == cursor(m, cb)
            &&& p != 0 && (p + 40 <= cb + 0x10 || cb + 0x18 <= p) ==> {
                &&& load_u32(after.mem, p as int) == Some(0xC001_2600u32)
                &&& load_u64(after.mem, p + 4) == Some(arg(a, 2))
                &&& load_u32(after.mem, p + 12) == Some(0xC000_1300u32)
                &&& load_u32(after.mem, p + 16) == Some(arg(a, 1) as u32)
                &&& load_u32(after.mem, p + 20) == Some(0xC003_2700u32)
                &&& load_u32(after.mem, p + 24) == Some(arg(a, 1) as u32)
                &&& load_u32(after.mem, p + 28) == Some(0u32)
                &&& load_u32(after.mem, p + 32) == Some(0u32)
                &&& load_u32(after.mem, p + 36) == Some(0u32)
                &&& load_u64(after.mem, cb + 0x10) == Some((p + 40) as u64)
            }
        }),
{
    lemma_headers();
    lemma_halves();
    let (after, p) = dcb_draw_index(m, a);
    let cb = arg(a, 0);
    let count = arg(a, 1) as u32;
    let binding = index_binding_words(arg(a, 2), count);
    let draw = seq![header(5, IT_DRAW_INDEX_2, R_ZERO), count, 0u32, 0u32, 0u32];
    let (m1, base) = emit_at(m, cb, binding);
    lemma_emit_at(m, cb, binding);
    lemma_emit_at(m1, cb, draw);
    if room(m, cb, 10) && (cursor(m, cb) + 40 <= cb + 0x10 || cb + 0x34 <= cursor(m, cb)) {
        lemma_room_behind(m, cb, binding, 5);
        lemma_room(m1, cb, 5);
        lemma_words_fit(allocate(m1, cb, 5).0.mem, cursor(m1, cb) as int, draw, 0, 0);
    }
    if p != 0 && (p + 40 <= cb + 0x10 || cb + 0x18 <= p) {
        law_packets_stand_end_to_end(m, cb, binding, draw);
        law_packet_reads_back(m1, cb, draw);
        let q = (p + 20) as u64;
        assert(emit_at(m1, cb, draw).1 == Some(q));
        lemma_words_at(after.mem, p, binding);
        lemma_words_at(after.mem, q, draw);
        assert(dword(after.mem, p, 0) == Some(binding[0]));
        assert(qword(after.mem, p, 1) == Some(arg(a, 2)));
        assert(dword(after.mem, p, 3) == Some(binding[3]));
        assert(dword(after.mem, p, 4) == Some(binding[4]));
        assert(dword(after.mem, q, 0) == Some(draw[0]));
        assert(dword(after.mem, q, 1) == Some(draw[1]));
        assert(dword(after.mem, q, 2) == Some(draw[2]));
        assert(dword(after.mem, q, 3) == Some(draw[3]));
        assert(dword(after.mem, q, 4) == Some(draw[4]));
    }
}

/// The packet of an index size holds the size, a byte; a cache policy other than
/// zero is refused.
pub proof fn law_index_size_packet(m: Machine, a: Seq<u64>)
    ensures
        ({
            let (after, p) = returned(AgcExport::DcbSetIndexSize, m, a);
            let accepted = arg(a, 2) & 0xFF == 0;
            &&& !accepted ==> p == 0 && after == m
            &&& accepted && room(m, arg(a, 0), 2) ==> p == cursor(m, arg(a, 0))
            &&& p != 0 ==> {
                &&& accepted
                &&& dword(after.mem, p, 0) == Some(0xC000_2A00u32)
                &&& dword(after.mem, p, 1) == Some((arg(a, 1) & 0xFF) as u32)
            }
        }),
{
    lemma_headers();
    lemma_halves();
    lemma_packets();
}

/// An automatic draw holds its vertex count; only the plain modifier is accepted.
pub proof fn law_draw_auto_packet(m: Machine, a: Seq<u64>)
    ensures
        ({
            let (after, p) = returned(AgcExport::DcbDrawIndexAuto, m, a);
            let accepted = arg(a, 2) == 0x4000_0000;
            &&& !accepted ==> p == 0 && after == m
            &&& accepted && room(m, arg(a, 0), 7) ==> p == cursor(m, arg(a, 0))
            &&& p != 0 ==> {
                &&& accepted
                &&& dword(after.mem, p, 0) == Some(0xC005_1010u32)
                &&& dword(after.mem, p, 1) == Some(arg(a, 1) as u32)
                &&& dword(after.mem, p, 2) == Some(0u32)
                &&& dword(after.mem, p, 3) == Some(0u32)
                &&& dword(after.mem, p, 4) == Some(0u32)
                &&& dword(after.mem, p, 5) == Some(0u32)
                &&& dword(after.mem, p, 6) == Some(0u32)
            }
        }),
{
    lemma_headers();
    lemma_halves();
    lemma_packets();
}

/// The packet of an instance count holds the count.
pub proof fn law_num_instances_packet(m: Machine, a: Seq<u64>)
    ensures
        ({
            let (after, p) = returned(AgcExport::DcbSetNumInstances, m, a);
            &&& room(m, arg(a, 0), 2) ==> p == cursor(m, arg(a, 0))
            &&& p != 0 ==> {
                &&& dword(after.mem, p, 0) == Some(0xC000_2F00u32)
                &&& dword(after.mem, p, 1) == Some(arg(a, 1) as u32)
            }
        }),
{
    lemma_headers();
    lemma_halves();
    lemma_packets();
}

/// The binding of an index buffer holds the whole address, and behind it the
/// index count.
pub proof fn law_index_buffer_packets(m: Machine, a: Seq<u64>)
    ensures
        ({
            let (after, p) = returned(AgcExport::DcbSetIndexBuffer, m, a);
            &&& room(m, arg(a, 0), 5) ==> p == cursor(m, arg(a, 0))
            &&& p != 0 ==> {
                &&& dword(after.mem, p, 0) == Some(0xC001_2600u32)
                &&& qword(after.mem, p, 1) == Some(arg(a, 1))
                &&& dword(after.mem, p, 3) == Some(0xC000_1300u32)
                &&& dword(after.mem, p, 4) == Some(arg(a, 2) as u32)
            }
        }),
{
    lemma_headers();
    lemma_halves();
    lemma_packets();
}

/// The packet of an index count holds the count.
pub proof fn law_index_count_packet(m: Machine, a: Seq<u64>)
    ensures
        ({
            let (after, p) = returned(AgcExport::DcbSetIndexCount, m, a);
            &&& room(m, arg(a, 0), 2) ==> p == cursor(m, arg(a, 0))
            &&& p != 0 ==> {
                &&& dword(after.mem, p, 0) == Some(0xC000_1300u32)
                &&& dword(after.mem, p, 1) == Some(arg(a, 1) as u32)
            }
        }),
{
    lemma_headers();
    lemma_halves();
    lemma_packets();
}

/// A dispatch holds its three group counts in order, and the initiator bits that
/// the modifier may set.
pub proof fn law_dispatch_packet(m: Machine, a: Seq<u64>)
    ensures
        ({
            let (after, p) = returned(AgcExport::CbDispatch, m, a);
            &&& room(m, arg(a, 0), 5) ==> p == cursor(m, arg(a, 0))
            &&& p != 0 ==> {
                &&& dword(after.mem, p, 0) == Some(0xC003_1500u32)
                &&& dword(after.mem, p, 1) == Some(arg(a, 1) as u32)
                &&& dword(after.mem, p, 2) == Some(arg(a, 2) as u32)
                &&& dword(after.mem, p, 3) == Some(arg(a, 3) as u32)
                &&& dword(after.mem, p, 4) == Some((arg(a, 4) as u32 & 0xA038) | 0x41)
            }
        }),
{
    lemma_headers();
    lemma_halves();
    lemma_packets();
}

/// An indirect dispatch of the graphics queue holds the offset of its arguments.
pub proof fn law_dispatch_indirect_packet(m: Machine, a: Seq<u64>)
    ensures
        ({
            let (after, p) = returned(AgcExport::DcbDispatchIndirect, m, a);
            &&& room(m, arg(a, 0), 3) ==> p == cursor(m, arg(a, 0))
            &&& p != 0 ==> {
                &&& dword(after.mem, p, 0) == Some(0xC001_1600u32)
                &&& dword(after.mem, p, 1) == Some(arg(a, 1) as u32)
                &&& dword(after.mem, p, 2) == Some((arg(a, 2) as u32 & 0xA038) | 0x41)
            }
        }),
{
    lemma_headers();
    lemma_halves();
    lemma_packets();
}

/// An indirect dispatch of a compute queue holds the whole address of its
/// arguments.
pub proof fn law_acb_dispatch_indirect_packet(m: Machine, a: Seq<u64>)
    ensures
        ({
            let (after, p) = returned(AgcExport::AcbDispatchIndirect, m, a);
            &&& room(m, arg(a, 0), 4) ==> p == cursor(m, arg(a, 0))
            &&& p != 0 ==> {
                &&& dword(after.mem, p, 0) == Some(0xC002_1600u32)
                &&& qword(after.mem, p, 1) == Some(arg(a, 1))
                &&& dword(after.mem, p, 3) == Some((arg(a, 2) as u32 & 0xA038) | 0x41)
            }
        }),
{
    lemma_headers();
    lemma_halves();
    lemma_packets();
}

/// The base of indirect arguments is the address that was passed, aligned down to
/// eight bytes.
pub proof fn law_base_indirect_args_packet(m: Machine, a: Seq<u64>)
    ensures
        ({
            let (after, p) = returned(AgcExport::DcbSetBaseIndirectArgs, m, a);
            &&& room(m, arg(a, 0), 4) ==> p == cursor(m, arg(a, 0))
            &&& p != 0 ==> {
                &&& dword(after.mem, p, 0) == Some(0xC002_1100u32 | ((arg(a, 1) as u32) << 1))
                &&& dword(after.mem, p, 1) == Some(1u32)
                &&& qword(after.mem, p, 2) == Some(arg(a, 2) & 0xFFFF_FFFF_FFFF_FFF8)
            }
        }),
{
    lemma_headers();
    lemma_halves();
    lemma_packets();
    lemma_masked_halves(arg(a, 2), !7u32);
    lemma_address_masks();
}

/// A draw at an offset holds the count twice, the offset between, and the modifier
/// bits that a draw may carry.
pub proof fn law_draw_index_offset_packet(m: Machine, a: Seq<u64>)
    ensures
        ({
            let (after, p) = returned(AgcExport::DcbDrawIndexOffset, m, a);
            &&& room(m, arg(a, 0), 5) ==> p == cursor(m, arg(a, 0))
            &&& p != 0 ==> {
                &&& dword(after.mem, p, 0) == Some(0xC003_3500u32)
                &&& dword(after.mem, p, 1) == Some(arg(a, 2) as u32)
                &&& dword(after.mem, p, 2) == Some(arg(a, 1) as u32)
                &&& dword(after.mem, p, 3) == Some(arg(a, 2) as u32)
                &&& dword(after.mem, p, 4) == Some(arg(a, 3) as u32 & 0xE000_0001)
            }
        }),
{
    lemma_headers();
    lemma_halves();
    lemma_packets();
}

/// An indirect draw with indices holds the offset of its arguments and the modifier.
pub proof fn law_draw_index_indirect_packet(m: Machine, a: Seq<u64>)
    ensures
        ({
            let (after, p) = returned(AgcExport::DcbDrawIndexIndirect, m, a);
            &&& room(m, arg(a, 0), 5) ==> p == cursor(m, arg(a, 0))
            &&& p != 0 ==> {
                &&& dword(after.mem, p, 0) == Some(0xC003_2500u32)
                &&& dword(after.mem, p, 1) == Some(arg(a, 1) as u32)
                &&& dword(after.mem, p, 2) == Some(0u32)
                &&& dword(after.mem, p, 3) == Some(0u32)
                &&& dword(after.mem, p, 4) == Some(arg(a, 2) as u32)
            }
        }),
{
    lemma_headers();
    lemma_halves();
    lemma_packets();
}

/// An indirect draw holds the offset of its arguments and the modifier.
pub proof fn law_draw_indirect_packet(m: Machine, a: Seq<u64>)
    ensures
        ({
            let (after, p) = returned(AgcExport::DcbDrawIndirect, m, a);
            &&& room(m, arg(a, 0), 5) ==> p == cursor(m, arg(a, 0))
            &&& p != 0 ==> {
                &&& dword(after.mem, p, 0) == Some(0xC003_2400u32)
                &&& dword(after.mem, p, 1) == Some(arg(a, 1) as u32)
                &&& dword(after.mem, p, 2) == Some(0u32)
                &&& dword(after.mem, p, 3) == Some(0u32)
                &&& dword(after.mem, p, 4) == Some(arg(a, 2) as u32)
            }
        }),
{
    lemma_headers();
    lemma_halves();
    lemma_packets();
}

/// A run of indirect draws with indices holds the offset, the draw count, the whole address
/// of the count, the stride and the modifier.
pub proof fn law_draw_index_indirect_multi_packet(m: Machine, a: Seq<u64>)
    ensures
        ({
            let (after, p) = returned(AgcExport::DcbDrawIndexIndirectMulti, m, a);
            &&& room(m, arg(a, 0), 9) ==> p == cursor(m, arg(a, 0))
            &&& p != 0 ==> {
                &&& dword(after.mem, p, 0) == Some(0xC007_3800u32)
                &&& dword(after.mem, p, 1) == Some(arg(a, 1) as u32)
                &&& dword(after.mem, p, 2) == Some(0u32)
                &&& dword(after.mem, p, 3) == Some(0u32)
                &&& dword(after.mem, p, 4) == Some(arg(a, 2) as u32)
                &&& qword(after.mem, p, 5) == Some(arg(a, 4))
                &&& dword(after.mem, p, 7) == Some(arg(a, 3) as u32)
                &&& dword(after.mem, p, 8) == Some(arg(a, 5) as u32)
            }
        }),
{
    lemma_headers();
    lemma_halves();
    lemma_packets();
}

/// A run of indirect draws holds the offset, the draw count, the whole address
/// of the count, the stride and the modifier.
pub proof fn law_draw_indirect_multi_packet(m: Machine, a: Seq<u64>)
    ensures
        ({
            let (after, p) = returned(AgcExport::DcbDrawIndirectMulti, m, a);
            &&& room(m, arg(a, 0), 9) ==> p == cursor(m, arg(a, 0))
            &&& p != 0 ==> {
                &&& dword(after.mem, p, 0) == Some(0xC007_2C00u32)
                &&& dword(after.mem, p, 1) == Some(arg(a, 1) as u32)
                &&& dword(after.mem, p, 2) == Some(0u32)
                &&& dword(after.mem, p, 3) == Some(0u32)
                &&& dword(after.mem, p, 4) == Some(arg(a, 2) as u32)
                &&& qword(after.mem, p, 5) == Some(arg(a, 4))
                &&& dword(after.mem, p, 7) == Some(arg(a, 3) as u32)
                &&& dword(after.mem, p, 8) == Some(arg(a, 5) as u32)
            }
        }),
{
    lemma_headers();
    lemma_halves();
    lemma_packets();
}

/// A multi-instanced draw holds the index count, the whole addresses of the
/// indices and of the instance ids, and the instance count, which is at least one
/// where the draw is launched. A null address and an odd index address are
/// refused.
pub proof fn law_draw_multi_instanced_packet(m: Machine, a: Seq<u64>)
    ensures
        ({
            let (after, p) = returned(AgcExport::DcbDrawIndexMultiInstanced, m, a);
            let accepted = arg(a, 2) != 0 && arg(a, 3) != 0 && arg(a, 2) & 1 == 0;
            &&& !accepted ==> p == 0 && after == m
            &&& accepted && room(m, arg(a, 0), 9) ==> p == cursor(m, arg(a, 0))
            &&& p != 0 ==> {
                &&& accepted
                &&& dword(after.mem, p, 0) == Some(0xC007_3A00u32)
                &&& dword(after.mem, p, 1) == Some(arg(a, 1) as u32)
                &&& qword(after.mem, p, 2) == Some(arg(a, 2))
                &&& dword(after.mem, p, 4) == Some(if arg(a, 4) as u32 == 0 { 1u32 } else { arg(a, 4) as u32 })
                &&& qword(after.mem, p, 5) == Some(arg(a, 3))
                &&& dword(after.mem, p, 7) == Some(arg(a, 4) as u32)
                &&& dword(after.mem, p, 8) == Some(draw_initiator(arg(a, 5)) | 0x80)
            }
        }),
{
    lemma_headers();
    lemma_halves();
    lemma_packets();
}
} // verus!
