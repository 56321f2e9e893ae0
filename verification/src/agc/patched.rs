//! What the patches leave in the packets they are applied to, and what the queries
//! read from packets: each against the arguments of its call and the memory that
//! it was applied to.
use vstd::prelude::*;
use crate::agc::effects::{
    changed_only, lemma_kept_reads, lemma_put_changes_only, lemma_put_u32_keeps_rest,
    lemma_put_u64_keeps_rest,
};
use crate::agc::fields::{
    joined, law_two_dwords_are_one_qword, lemma_halves, lemma_masked_halves, lemma_put_u32_keeps,
    lemma_put_u64_keeps, returned,
};
use crate::agc::fields::control::lemma_address_masks;
use crate::agc::packet::{header_dwords, header_op, header_reg, hi, lo};
use crate::agc::patch::{
    get_data_packet_payload_range, gs_out, payload_range, set_pair, set_u32, set_u64, update,
    update_cx_prim, update_prim_state,
};
use crate::agc::sizes::{
    init_result, lod_stats_size, nop_size, registers_direct_size, sh_register_range_dwords,
    uc_register_range_size, wait_on_address_size, write_data_size,
};
use crate::bytes::{
    lemma_auto_spec_u32_to_from_le_bytes, lemma_auto_spec_u64_to_from_le_bytes,
    spec_u32_to_le_bytes, spec_u64_to_le_bytes,
};
use crate::context::{arg, Machine};
use crate::libsce_agc::AgcExport;
use crate::mem::{
    law_read_back_u32, law_read_back_u64, load_u32, load_u64, mapped, put_u32, put_u64, Mem,
};

verus! {

/// The fields of a header: its opcode in bits 8 to 15, its discriminator in bits 2
/// to 7, and its length less two in bits 16 to 29.
pub proof fn law_header_fields(h: u32)
    ensures
        header_op(h) == h / 0x100 % 0x100,
        header_reg(h) == h / 4 % 0x40,
        header_dwords(h) == h / 0x1_0000 % 0x4000 + 2,
{
    assert({
        &&& (h >> 8) & 0xFF == h / 0x100 % 0x100
        &&& (h >> 2) & 0x3F == h / 4 % 0x40
        &&& (h >> 16) & 0x3FFF == h / 0x1_0000 % 0x4000
    }) by (bit_vector);
}

/// The packet at `command` has opcode `op`.
pub open spec fn is_op(m: Mem, command: u64, op: u32) -> bool {
    &&& command != 0
    &&& load_u32(m, command as int) is Some
    &&& load_u32(m, command as int)->0 / 0x100 % 0x100 == op
}

/// The packet at `command` is one of the library's own, with discriminator `reg`.
pub open spec fn is_own(m: Mem, command: u64, reg: u32) -> bool {
    is_op(m, command, 0x10) && load_u32(m, command as int)->0 / 4 % 0x40 == reg
}

/// What a patch of the `n` bytes at `at` does: where it does not apply it is an
/// invalid argument, where those bytes are not mapped it is a fault, and neither
/// changes anything; otherwise it changes those bytes at most.
pub open spec fn patches(m: Machine, r: (Machine, u64), applies: bool, at: int, n: nat) -> bool {
    &&& !applies ==> r == (m, 0x8002_0016u64)
    &&& applies && mapped(m.mem, at, n) ==> r.1 == 0
    &&& applies && !mapped(m.mem, at, n) ==> r == (m, 0x8002_000Eu64)
    &&& r.1 == 0 ==> applies && changed_only(m.mem, r.0.mem, at, n as int) && r.0 == m.with_mem(
        r.0.mem,
    )
}

proof fn lemma_headers_read(m: Mem, command: u64)
    ensures
        load_u32(m, command as int) is Some ==> {
            let h = load_u32(m, command as int)->0;
            &&& header_op(h) == h / 0x100 % 0x100
            &&& header_reg(h) == h / 4 % 0x40
            &&& header_dwords(h) == h / 0x1_0000 % 0x4000 + 2
        },
{
    if load_u32(m, command as int) is Some {
        law_header_fields(load_u32(m, command as int)->0);
    }
}

proof fn lemma_set_u32(m: Machine, at: int, v: u32)
    ensures
        patches(m, set_u32(m, at, v), true, at, 4),
        set_u32(m, at, v).1 == 0 ==> load_u32(set_u32(m, at, v).0.mem, at) == Some(v),
{
    lemma_auto_spec_u32_to_from_le_bytes();
    lemma_put_u32_keeps(m.mem, at, v, 0, 0);
    lemma_put_changes_only(m.mem, at, spec_u32_to_le_bytes(v));
    if put_u32(m.mem, at, v).1 {
        law_read_back_u32(m.mem, at, v);
    }
}

proof fn lemma_set_u64(m: Machine, at: int, v: u64)
    ensures
        patches(m, set_u64(m, at, v), true, at, 8),
        set_u64(m, at, v).1 == 0 ==> load_u64(set_u64(m, at, v).0.mem, at) == Some(v),
{
    lemma_auto_spec_u64_to_from_le_bytes();
    lemma_put_u64_keeps(m.mem, at, v, 0, 0);
    lemma_put_changes_only(m.mem, at, spec_u64_to_le_bytes(v));
    if put_u64(m.mem, at, v).1 {
        law_read_back_u64(m.mem, at, v);
    }
}

proof fn lemma_update(m: Machine, at: int, keep: u32, bits: u32)
    ensures
        patches(m, update(m, at, keep, bits), true, at, 4),
        update(m, at, keep, bits).1 == 0 ==> load_u32(update(m, at, keep, bits).0.mem, at) == Some(
            (load_u32(m.mem, at)->0 & keep) | bits,
        ),
{
    if let Some(w) = load_u32(m.mem, at) {
        lemma_set_u32(m, at, (w & keep) | bits);
    }
}

/// Two DWORDs in a row are set to the halves of a value.
proof fn lemma_set_pair(m: Machine, at: int, v: u32, w: u32)
    ensures
        ({
            let r = set_pair(m, at, v, at + 4, w);
            &&& mapped(m.mem, at, 8) ==> r.1 == 0
            &&& r.1 != 0 ==> r.1 == 0x8002_000E
            &&& r.1 == 0 ==> {
                &&& load_u64(r.0.mem, at) == Some(joined(v, w))
                &&& changed_only(m.mem, r.0.mem, at, 8)
                &&& r.0 == m.with_mem(r.0.mem)
            }
        }),
{
    let m1 = set_u32(m, at, v).0;
    let r = set_pair(m, at, v, at + 4, w);
    lemma_set_u32(m, at, v);
    lemma_set_u32(m1, at + 4, w);
    lemma_put_u32_keeps(m.mem, at, v, at + 4, 4);
    if mapped(m.mem, at, 8) {
        assert forall|x: int| at <= x < at + 4 implies #[trigger] m.mem.dom().contains(x) by {}
        assert forall|x: int| at + 4 <= x < at + 8 implies #[trigger] m.mem.dom().contains(x) by {}
        assert(mapped(m.mem, at, 4) && mapped(m.mem, at + 4, 4));
    }
    if r.1 == 0 {
        lemma_put_u32_keeps_rest(m1.mem, at + 4, w, at, 4);
        lemma_kept_reads(m1.mem, r.0.mem, at, 4, at, 4);
        law_two_dwords_are_one_qword(r.0.mem, at);
    }
}

/// The patches of a release (0x18): its whole destination at 12, its whole data at
/// 20, its range control in the low half of 8, its type in the low byte of 4.
pub proof fn law_release_patches(m: Machine, a: Seq<u64>)
    ensures
        ({
            let c = arg(a, 0);
            let r = returned(AgcExport::QueueEopPatchAddress, m, a);
            &&& patches(m, r, is_own(m.mem, c, 0x18), c + 12, 8)
            &&& r.1 == 0 ==> load_u64(r.0.mem, c + 12) == Some(arg(a, 1))
        }),
        ({
            let c = arg(a, 0);
            let r = returned(AgcExport::QueueEopPatchData, m, a);
            let context = arg(a, 1) as u32;
            &&& patches(m, r, is_own(m.mem, c, 0x18), c + 20, 8)
            &&& r.1 == 0 && (context <= 1 || arg(a, 2) as u32 != 1) ==> load_u64(r.0.mem, c + 20)
                == Some(arg(a, 3))
            &&& r.1 == 0 && context > 1 && arg(a, 2) as u32 == 1 ==> load_u64(r.0.mem, c + 20)
                == Some((0x100_0000 * (context - 2) + arg(a, 3) % 0x100_0000) as u64)
        }),
        ({
            let c = arg(a, 0);
            let r = returned(AgcExport::QueueEopPatchGcrCntl, m, a);
            &&& patches(m, r, is_own(m.mem, c, 0x18), c + 8, 4)
            &&& r.1 == 0 ==> load_u32(r.0.mem, c + 8) == Some(
                (load_u32(m.mem, c + 8)->0 & 0xFFFF_0000) | (arg(a, 1) as u32 & 0xFFFF),
            )
        }),
        ({
            let c = arg(a, 0);
            let r = returned(AgcExport::QueueEopPatchType, m, a);
            &&& patches(m, r, is_own(m.mem, c, 0x18), c + 4, 4)
            &&& r.1 == 0 ==> load_u32(r.0.mem, c + 4) == Some(
                (load_u32(m.mem, c + 4)->0 & !0xFFu32) | (arg(a, 1) as u32 & 0xFF),
            )
        }),
{
    let c = arg(a, 0);
    let context = arg(a, 1) as u32;
    let data = arg(a, 3);
    let spare = (context - 2) as u32;
    lemma_headers_read(m.mem, c);
    lemma_set_u64(m, c + 12, arg(a, 1));
    lemma_set_u64(m, c + 20, data);
    assert(((spare as u64) << 24) | (data & 0x00FF_FFFF) == 0x100_0000 * spare + data % 0x100_0000)
        by (bit_vector);
    lemma_set_u64(m, c + 20, ((spare as u64) << 24) | (data & 0x00FF_FFFF));
    lemma_update(m, c + 8, 0xFFFF_0000, lo(arg(a, 1)) & 0xFFFF);
    lemma_update(m, c + 4, !0xFFu32, lo(arg(a, 1)) & 0xFF);
}

/// The patches of a copy (0x19): its whole destination at 16, its whole source at
/// 24; and of a write (0x15): its whole destination at 8.
pub proof fn law_copy_and_write_patches(m: Machine, a: Seq<u64>)
    ensures
        ({
            let c = arg(a, 0);
            let r = returned(AgcExport::DmaDataPatchAddress, m, a);
            &&& patches(m, r, is_own(m.mem, c, 0x19), c + 16, 8)
            &&& r.1 == 0 ==> load_u64(r.0.mem, c + 16) == Some(arg(a, 1))
        }),
        ({
            let c = arg(a, 0);
            let r = returned(AgcExport::DmaDataPatchSrc, m, a);
            &&& patches(m, r, is_own(m.mem, c, 0x19), c + 24, 8)
            &&& r.1 == 0 ==> load_u64(r.0.mem, c + 24) == Some(arg(a, 1))
        }),
        ({
            let c = arg(a, 0);
            let r = returned(AgcExport::WriteDataPatchAddress, m, a);
            &&& patches(m, r, is_own(m.mem, c, 0x15), c + 8, 8)
            &&& r.1 == 0 ==> load_u64(r.0.mem, c + 8) == Some(arg(a, 1))
        }),
{
    let c = arg(a, 0);
    lemma_headers_read(m.mem, c);
    lemma_set_u64(m, c + 16, arg(a, 1));
    lemma_set_u64(m, c + 24, arg(a, 1));
    lemma_set_u64(m, c + 8, arg(a, 1));
}

/// The packet at `command` is a wait: the standard one, one on 32 bits, or one on
/// 64 bits.
pub open spec fn is_wait_packet(m: Mem, command: u64) -> bool {
    is_op(m, command, 0x3C) || is_own(m, command, 0x0A) || is_own(m, command, 0x16)
}

/// The patches of a wait. The whole address is at 8 in the standard packet and at 4
/// in the others; the comparison is the low byte of 4, 16 or 28; the reference is a
/// DWORD at 16 or 20, and all 64 bits at 20 in a wait on 64.
pub proof fn law_wait_patches(m: Machine, a: Seq<u64>)
    ensures
        ({
            let c = arg(a, 0);
            let r = returned(AgcExport::WaitRegMemPatchAddress, m, a);
            let at = if is_op(m.mem, c, 0x3C) {
                c + 8
            } else {
                c + 4
            };
            &&& patches(m, r, is_wait_packet(m.mem, c), at, 8)
            &&& r.1 == 0 ==> load_u64(r.0.mem, at) == Some(arg(a, 1))
        }),
        ({
            let c = arg(a, 0);
            let r = returned(AgcExport::WaitRegMemPatchCompareFunction, m, a);
            let at = if is_op(m.mem, c, 0x3C) {
                c + 4
            } else if is_own(m.mem, c, 0x0A) {
                c + 16
            } else {
                c + 28
            };
            &&& patches(m, r, is_wait_packet(m.mem, c), at, 4)
            &&& r.1 == 0 ==> load_u32(r.0.mem, at) == Some(
                (load_u32(m.mem, at)->0 & !0xFFu32) | (arg(a, 1) & 0xFF) as u32,
            )
        }),
        ({
            let c = arg(a, 0);
            let r = returned(AgcExport::WaitRegMemPatchReference, m, a);
            &&& !is_wait_packet(m.mem, c) ==> r == (m, 0x8002_0016u64)
            &&& is_op(m.mem, c, 0x3C) ==> patches(m, r, true, c + 16, 4) && (r.1 == 0 ==> load_u32(
                r.0.mem,
                c + 16,
            ) == Some(arg(a, 1) as u32))
            &&& is_own(m.mem, c, 0x0A) ==> patches(m, r, true, c + 20, 4) && (r.1 == 0 ==> load_u32(
                r.0.mem,
                c + 20,
            ) == Some(arg(a, 1) as u32))
            &&& is_own(m.mem, c, 0x16) ==> patches(m, r, true, c + 20, 8) && (r.1 == 0 ==> load_u64(
                r.0.mem,
                c + 20,
            ) == Some(arg(a, 1)))
        }),
{
    let c = arg(a, 0);
    lemma_headers_read(m.mem, c);
    lemma_set_u64(m, c + 8, arg(a, 1));
    lemma_set_u64(m, c + 4, arg(a, 1));
    lemma_update(m, c + 4, !0xFFu32, (arg(a, 1) & 0xFF) as u32);
    lemma_update(m, c + 16, !0xFFu32, (arg(a, 1) & 0xFF) as u32);
    lemma_update(m, c + 28, !0xFFu32, (arg(a, 1) & 0xFF) as u32);
    lemma_set_u32(m, c + 16, lo(arg(a, 1)));
    lemma_set_u32(m, c + 20, lo(arg(a, 1)));
    lemma_set_u64(m, c + 20, arg(a, 1));
}

/// The end of a conditional execution: the distance from the end of the packet, in
/// DWORDs, at most 0x3FFF, in the low 14 bits of 16. An end before the packet's own
/// is refused.
pub proof fn law_conditional_end(m: Machine, a: Seq<u64>)
    ensures
        ({
            let c = arg(a, 0);
            let end = arg(a, 1);
            let r = returned(AgcExport::CondExecPatchSetEnd, m, a);
            let applies = is_op(m.mem, c, 0x22) && end != 0 && end >= c + 20 && (end - c - 20) / 4
                <= 0x3FFF;
            &&& patches(m, r, applies, c + 16, 4)
            &&& r.1 == 0 ==> load_u32(r.0.mem, c + 16) == Some(
                (load_u32(m.mem, c + 16)->0 & !0x3FFFu32) | ((end - c - 20) / 4) as u32,
            )
        }),
{
    let c = arg(a, 0);
    lemma_headers_read(m.mem, c);
    lemma_update(m, c + 16, !0x3FFFu32, ((arg(a, 1) - c - 20) / 4) as u32);
}

/// The label of a conditional execution: the whole address at 4, which is neither
/// null nor unaligned, over the two low bits that were there.
pub proof fn law_conditional_label(m: Machine, a: Seq<u64>)
    ensures
        ({
            let c = arg(a, 0);
            let label = arg(a, 1);
            let r = returned(AgcExport::CondExecPatchSetCommandAddress, m, a);
            let applies = is_op(m.mem, c, 0x22) && label != 0 && label & 3 == 0;
            &&& !applies ==> r == (m, 0x8002_0016u64)
            &&& applies && mapped(m.mem, c + 4, 8) ==> r.1 == 0
            &&& r.1 == 0 ==> {
                &&& applies
                &&& load_u64(r.0.mem, c + 4) == Some((label + load_u32(m.mem, c + 4)->0 % 4) as u64)
                &&& changed_only(m.mem, r.0.mem, c + 4, 8)
            }
        }),
{
    let c = arg(a, 0);
    let label = arg(a, 1);
    lemma_headers_read(m.mem, c);
    if mapped(m.mem, c + 4, 8) {
        assert forall|x: int| c + 4 <= x < c + 8 implies #[trigger] m.mem.dom().contains(x) by {}
        assert(mapped(m.mem, c + 4, 4));
    }
    if let Some(w) = load_u32(m.mem, c + 4) {
        let low = (w & 0x3) | (lo(label) & 0xFFFF_FFFC);
        let high = hi(label);
        lemma_set_pair(m, c + 4, low, high);
        if label & 3 == 0 {
            assert(low + 0x1_0000_0000 * high == label + w % 4) by (bit_vector)
                requires
                    label & 3 == 0,
                    low == (w & 0x3) | ((label as u32) & 0xFFFF_FFFC),
                    high == (label >> 32) as u32,
            ;
        }
    }
}

/// A rewind (0x59) holds its state in the top bit of 4; a branch (0x3F, 14 DWORDs
/// long) its whole compare address, aligned down to eight, at 8.
pub proof fn law_control_patches(m: Machine, a: Seq<u64>)
    ensures
        ({
            let c = arg(a, 0);
            let r = returned(AgcExport::RewindPatchSetRewindState, m, a);
            &&& patches(m, r, is_op(m.mem, c, 0x59), c + 4, 4)
            &&& r.1 == 0 ==> load_u32(r.0.mem, c + 4) == Some(
                if arg(a, 1) % 2 == 1 {
                    0x8000_0000u32
                } else {
                    0
                },
            )
        }),
        ({
            let c = arg(a, 0);
            let r = returned(AgcExport::BranchPatchSetCompareAddress, m, a);
            let applies = is_op(m.mem, c, 0x3F) && load_u32(m.mem, c as int)->0 / 0x1_0000 % 0x4000
                == 12;
            &&& !applies ==> r == (m, 0x8002_0016u64)
            &&& applies && mapped(m.mem, c + 8, 8) ==> r.1 == 0
            &&& r.1 == 0 ==> {
                &&& applies
                &&& load_u64(r.0.mem, c + 8) == Some(arg(a, 1) & 0xFFFF_FFFF_FFFF_FFF8)
                &&& changed_only(m.mem, r.0.mem, c + 8, 8)
            }
        }),
{
    let c = arg(a, 0);
    let x = arg(a, 1);
    lemma_headers_read(m.mem, c);
    assert(((x & 0x1) as u32) << 31 == (if x % 2 == 1 {
        0x8000_0000u32
    } else {
        0
    })) by (bit_vector);
    lemma_set_u32(m, c + 4, ((x & 0x1) as u32) << 31);
    lemma_set_pair(m, c + 8, lo(x) & 0xFFFF_FFF8, hi(x));
    lemma_masked_halves(x, 0xFFFF_FFF8u32);
    lemma_address_masks();
}

/// The patches of a register list: its whole address at 8, and at 4 its count, which
/// is set, or grows by what was passed, over 32 bits.
pub proof fn law_register_list_patches(m: Machine, a: Seq<u64>)
    ensures
        ({
            let c = arg(a, 0);
            let r = returned(AgcExport::SetIndirectPatchAddress, m, a);
            let applies = c != 0 && arg(a, 1) != 0;
            &&& !applies ==> r == (m, 0x8002_0016u64)
            &&& applies && mapped(m.mem, c + 8, 8) ==> r.1 == 0
            &&& r.1 == 0 ==> {
                &&& load_u64(r.0.mem, c + 8) == Some(arg(a, 1))
                &&& changed_only(m.mem, r.0.mem, c + 8, 8)
            }
        }),
        ({
            let c = arg(a, 0);
            let r = returned(AgcExport::SetIndirectPatchSetNumRegisters, m, a);
            &&& patches(m, r, c != 0, c + 4, 4)
            &&& r.1 == 0 ==> load_u32(r.0.mem, c + 4) == Some(arg(a, 1) as u32)
        }),
        ({
            let c = arg(a, 0);
            let r = returned(AgcExport::AddIndirectPatchRegisters, m, a);
            &&& patches(m, r, c != 0, c + 4, 4)
            &&& r.1 == 0 ==> load_u32(r.0.mem, c + 4) == Some(
                ((load_u32(m.mem, c + 4)->0 + arg(a, 1) as u32) % 0x1_0000_0000) as u32,
            )
        }),
{
    let c = arg(a, 0);
    lemma_halves();
    lemma_set_pair(m, c + 8, lo(arg(a, 1)), hi(arg(a, 1)));
    lemma_set_u32(m, c + 4, lo(arg(a, 1)));
    if let Some(n) = load_u32(m.mem, c + 4) {
        lemma_set_u32(m, c + 4, n.wrapping_add(lo(arg(a, 1))));
    }
}

/// The size of a packet is what its header says, two DWORDs more than its length
/// field; a one-DWORD marker is one, and what cannot be read is none.
pub proof fn law_packet_size(m: Machine, a: Seq<u64>)
    ensures
        ({
            let (after, n) = returned(AgcExport::GetPacketSize, m, a);
            let h = load_u32(m.mem, arg(a, 0) as int);
            &&& after == m
            &&& arg(a, 0) == 0 || h is None ==> n == 0
            &&& arg(a, 0) != 0 && h is Some && h->0 / 0x100 == 0x3F_FF10 ==> n == 1
            &&& arg(a, 0) != 0 && h is Some && h->0 / 0x100 != 0x3F_FF10 ==> n == h->0 / 0x1_0000
                % 0x4000 + 2
        }),
{
    lemma_headers_read(m.mem, arg(a, 0));
    if let Some(h) = load_u32(m.mem, arg(a, 0) as int) {
        assert((h & 0xFFFF_FF00 == 0x3FFF_1000) <==> (h / 0x100 == 0x3F_FF10)) by (bit_vector);
    }
}

/// The payload of a packet: behind its header, or behind the first DWORD after it
/// when the caller asks for the second kind; a packet whose length field is full has
/// none of the first kind.
pub proof fn law_payload_queries(m: Machine, a: Seq<u64>)
    requires
        arg(a, 0) != 0,
        arg(a, 1) != 0,
        load_u32(m.mem, arg(a, 1) as int) is Some,
        arg(a, 1) + 8 <= u64::MAX,
    ensures
        ({
            let (after, code) = returned(AgcExport::GetDataPacketPayloadAddress, m, a);
            let h = load_u32(m.mem, arg(a, 1) as int)->0;
            let second = arg(a, 2) as u32 != 0;
            let none = h / 0x1_0000 % 0x4000 == 0x3FFF;
            &&& code == 0 <==> mapped(m.mem, arg(a, 0) as int, 8)
            &&& code == 0 ==> load_u64(after.mem, arg(a, 0) as int) == Some(
                (if second {
                    arg(a, 1) + 8
                } else if none {
                    0
                } else {
                    arg(a, 1) + 4
                }) as u64,
            )
        }),
        ({
            let (after, code) = returned(AgcExport::GetDataPacketPayloadRange, m, a);
            let h = load_u32(m.mem, arg(a, 1) as int)->0;
            let second = arg(a, 2) as u32 != 0;
            let none = h / 0x1_0000 % 0x4000 == 0x3FFF;
            let body = 4 * (h / 0x1_0000 % 0x4000);
            &&& code == 0 ==> {
                &&& load_u64(after.mem, arg(a, 0) as int) == Some(
                    (if second {
                        arg(a, 1) + 8
                    } else if none {
                        0
                    } else {
                        arg(a, 1) + 4
                    }) as u64,
                )
                &&& load_u64(after.mem, arg(a, 0) + 8) == Some(
                    (if second {
                        body as int
                    } else if none {
                        0
                    } else {
                        body + 4
                    }) as u64,
                )
            }
        }),
{
    let h = load_u32(m.mem, arg(a, 1) as int)->0;
    let out = arg(a, 0) as int;
    let command = arg(a, 1);
    assert({
        &&& (h & 0x3FFF_0000 == 0x3FFF_0000) <==> (h / 0x1_0000 % 0x4000 == 0x3FFF)
        &&& (h >> 14) & 0xFFFC == 4 * (h / 0x1_0000 % 0x4000)
    }) by (bit_vector);
    lemma_set_u64(m, out, command.wrapping_add(8));
    lemma_set_u64(m, out, command.wrapping_add(4));
    lemma_set_u64(m, out, 0);
    let (after, code) = get_data_packet_payload_range(m, a);
    if code == 0 {
        let (base, size) = payload_range(command, h, lo(arg(a, 2)));
        let m1 = set_u64(m, out, base).0;
        lemma_set_u64(m, out, base);
        lemma_set_u64(m1, out + 8, size);
        lemma_put_u64_keeps_rest(m1.mem, out + 8, size, out, 8);
        lemma_kept_reads(m1.mem, after.mem, out, 8, out, 8);
    }
}

/// What a geometry shader puts out for each primitive type.
pub proof fn law_output_primitive(t: u32)
    ensures
        gs_out(t) == (if t == 1 {
            0u32
        } else if t == 2 || t == 3 || t == 10 || t == 11 || t == 18 {
            1
        } else if t == 7 {
            3
        } else if t == 17 {
            4
        } else {
            2
        }),
{
}

/// A new primitive type: its output class goes into the low three bits of the
/// context table's second value (at 12), unless the stages (at 4) run tessellation
/// or a geometry shader; the type itself into the low five bits of the
/// configuration table's third value (at 20). A null table is left out. (The tables
/// are apart.)
pub proof fn law_primitive_type_is_updated(m: Machine, a: Seq<u64>)
    requires
        returned(AgcExport::UpdatePrimState, m, a).1 == 0,
        arg(a, 0) != 0,
        arg(a, 1) != 0,
        arg(a, 0) + 16 <= arg(a, 1) || arg(a, 1) + 24 <= arg(a, 0),
    ensures
        ({
            let after = returned(AgcExport::UpdatePrimState, m, a).0;
            let (cx, uc) = (arg(a, 0), arg(a, 1));
            let t = arg(a, 2) as u32;
            &&& load_u32(m.mem, cx + 4)->0 & 0x24 == 0 ==> load_u32(after.mem, cx + 12) == Some(
                (load_u32(m.mem, cx + 12)->0 & !7u32) | gs_out(t),
            )
            &&& load_u32(m.mem, cx + 4)->0 & 0x24 != 0 ==> load_u32(after.mem, cx + 12)
                == load_u32(m.mem, cx + 12)
            &&& load_u32(after.mem, uc + 20) == Some(
                (load_u32(m.mem, uc + 20)->0 & !0x1Fu32) | (t & 0x1F),
            )
            &&& load_u32(after.mem, cx + 4) == load_u32(m.mem, cx + 4)
        }),
{
    let after = update_prim_state(m, a).0;
    let (cx, uc) = (arg(a, 0), arg(a, 1));
    let t = arg(a, 2) as u32;
    let class = load_u32(m.mem, cx + 12)->0;
    let m1 = update_cx_prim(m, cx, t).0;
    let v = (class & !7u32) | gs_out(t);
    lemma_set_u32(m, cx + 12, v);
    lemma_put_u32_keeps_rest(m.mem, cx + 12, v, uc + 20, 4);
    lemma_put_u32_keeps_rest(m.mem, cx + 12, v, cx + 4, 4);
    if load_u32(m.mem, cx + 4)->0 & 0x24 == 0 {
        lemma_kept_reads(m.mem, m1.mem, uc + 20, 4, uc + 20, 4);
        lemma_kept_reads(m.mem, m1.mem, cx + 4, 4, cx + 4, 4);
    }
    let w = load_u32(m1.mem, uc + 20)->0;
    lemma_update(m1, uc + 20, !0x1Fu32, t & 0x1F);
    lemma_put_u32_keeps_rest(m1.mem, uc + 20, (w & !0x1Fu32) | (t & 0x1F), cx as int, 16);
    lemma_kept_reads(m1.mem, after.mem, cx as int, 16, cx + 12, 4);
    lemma_kept_reads(m1.mem, after.mem, cx as int, 16, cx + 4, 4);
}

/// The sizes that depend on a count, in bytes (the range of shader registers in
/// DWORDs), and the versions that the library can be initialised for.
pub proof fn law_counted_sizes(a: Seq<u64>)
    ensures
        ({
            let n = arg(a, 0) as u32;
            &&& nop_size(a) == 4 * n
            &&& lod_stats_size(a) == (if n == 0 {
                20
            } else {
                16 + 4 * n
            })
            &&& write_data_size(a) == 16 + 4 * n
            &&& sh_register_range_dwords(a) == n + 4
            &&& registers_direct_size(a) == 12 * n
            &&& uc_register_range_size(a) == 8 + 4 * n
        }),
        a.len() > 0 && a[0] == 0 ==> wait_on_address_size(a) == 56,
        a.len() > 0 && a[0] == 1 ==> wait_on_address_size(a) == 64,
        a.len() == 0 || a[0] > 1 ==> wait_on_address_size(a) == 0,
        ({
            let v = arg(a, 1) as u32;
            let known = arg(a, 0) != 0 && (v == 7 || v == 8 || v == 10 || v == 12 || v == 13);
            &&& known ==> init_result(a) == 0
            &&& !known ==> init_result(a) == 0x8002_0016
        }),
{
}

/// Without an output or a packet the payload queries are refused, and where they need
/// the packet's header and cannot read it, or cannot write their answer, they fail.
pub proof fn law_refused_payload_queries(m: Machine, a: Seq<u64>)
    ensures
        ({
            let one = returned(AgcExport::GetDataPacketPayloadAddress, m, a);
            let both = returned(AgcExport::GetDataPacketPayloadRange, m, a);
            let null = arg(a, 0) == 0 || arg(a, 1) == 0;
            let unread = !null && load_u32(m.mem, arg(a, 1) as int) is None;
            &&& null ==> one == (m, 0x8002_0016u64) && both == (m, 0x8002_0016u64)
            &&& unread && arg(a, 2) as u32 == 0 ==> one == (m, 0x8002_000Eu64)
            &&& unread ==> both == (m, 0x8002_000Eu64)
            &&& !null && !unread && mapped(m.mem, arg(a, 0) as int, 16) ==> both.1 == 0
            &&& !null && !mapped(m.mem, arg(a, 0) as int, 8) ==> one.1 == 0x8002_000E && both.1
                == 0x8002_000E
        }),
{
    let out = arg(a, 0) as int;
    let h = load_u32(m.mem, arg(a, 1) as int)->0;
    let (base, size) = payload_range(arg(a, 1), h, lo(arg(a, 2)));
    lemma_set_u64(m, out, arg(a, 1).wrapping_add(8));
    lemma_set_u64(m, out, arg(a, 1).wrapping_add(4));
    lemma_set_u64(m, out, 0);
    lemma_set_u64(m, out, base);
    lemma_set_u64(set_u64(m, out, base).0, out + 8, size);
    if mapped(m.mem, out, 16) {
        assert forall|x: int| out <= x < out + 8 implies #[trigger] m.mem.dom().contains(x) by {}
        assert forall|x: int| out + 8 <= x < out + 16 implies #[trigger] m.mem.dom().contains(
            x,
        ) by {}
        lemma_put_u64_keeps(m.mem, out, base, out + 8, 8);
    }
}

} // verus!
