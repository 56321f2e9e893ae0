//! The packets that carry data: copies, writes, ranges of registers, skips,
//! markers and lists of workloads.
use vstd::prelude::*;
use crate::agc::data::{
    bytes4, cb_nop, cb_set_sh_register_range, cb_set_uc_register_range, copied, copy_words,
    dcb_marker, dcb_set_workloads_active, dcb_write_data, emit_copy, emit_with_quads, marker_words,
    packed, packed_dwords, workload_mask,
};
use crate::agc::effects::apart;
use crate::agc::fields::{
    cursor, dword, joined, lemma_halves, lemma_headers, lemma_put_u32_keeps, lemma_put_u64_keeps,
    lemma_room, returned, lemma_word, lemma_words_fit, law_header_value, law_packet_stands,
    law_two_dwords_are_one_qword, qword, room,
};
use crate::agc::laws::{
    clear_of_cursor, law_allocation_moves_cursor, law_packet_reads_back,
    lemma_copy_words_elsewhere, lemma_emit_at, lemma_put_u32_elsewhere, lemma_put_u64_elsewhere,
    lemma_write_words_back, lemma_write_words_elsewhere,
};
use crate::agc::packet::{
    allocate, emit, emit_at, header, hi, lo, write_words, IT_NOP, IT_SET_SH_REG,
    IT_SET_UCONFIG_REG, R_DMA_DATA, R_WRITE_DATA, R_ZERO,
};
use crate::agc::registers::{
    cb_set_registers_direct, emit_runs, read_registers, run_end, run_words, sort_registers, Register,
};
use crate::bytes::{
    lemma_auto_spec_u32_to_from_le_bytes, spec_u32_from_le_bytes, spec_u32_to_le_bytes,
};
use crate::context::{arg, Machine};
use crate::libsce_agc::{effect, AgcExport};
use crate::mem::{law_read_back_u32, law_read_back_u64, load, load_u32, mapped, put_u64, Mem};
use crate::text::cstring;

verus! {

/// A packet with two 64-bit fields in it: the fields stand between its head and its
/// tail.
proof fn lemma_quads(m: Machine, cb: u64, head: Seq<u32>, q0: u64, q1: u64, tail: Seq<u32>)
    requires
        0 < head.len() <= 8,
        tail.len() <= 8,
    ensures
        ({
            let (after, p) = emit_with_quads(m, cb, head, q0, q1, tail);
            let n = head.len();
            &&& room(m, cb, (n + 4 + tail.len()) as int) ==> p == cursor(m, cb)
            &&& p != 0 ==> {
                &&& p == cursor(m, cb)
                &&& forall|i: int| 0 <= i < n ==> #[trigger] dword(after.mem, p, i) == Some(head[i])
                &&& qword(after.mem, p, n as int) == Some(q0)
                &&& qword(after.mem, p, n as int + 2) == Some(q1)
                &&& forall|i: int|
                    n + 4 <= i < n + 4 + tail.len() ==> #[trigger] dword(after.mem, p, i) == Some(
                        tail[i - n - 4],
                    )
            }
        }),
{
    let n = head.len();
    let total = (n + 4 + tail.len()) as u64;
    let (after, p) = emit_with_quads(m, cb, head, q0, q1, tail);
    if room(m, cb, total as int) {
        lemma_room(m, cb, total);
    }
    if cb != 0 && allocate(m, cb, total).1 is Some {
        let at = allocate(m, cb, total).1->0 as int;
        let m1 = allocate(m, cb, total).0.mem;
        let a = write_words(m1, at, head).0;
        let b = put_u64(a, at + 4 * n, q0).0;
        let c = put_u64(b, at + 4 * n + 8, q1).0;
        let d = write_words(c, at + 4 * n + 16, tail).0;
        law_allocation_moves_cursor(m, cb, total);
        if room(m, cb, total as int) {
            assert forall|x: int| at <= x < at + 4 * n implies #[trigger] m1.dom().contains(x) by {}
            assert forall|x: int| at + 4 * n <= x < at + 4 * n + 8 implies
                #[trigger] m1.dom().contains(x) by {}
            assert forall|x: int| at + 4 * n + 8 <= x < at + 4 * n + 16 implies
                #[trigger] m1.dom().contains(x) by {}
            assert forall|x: int| at + 4 * n + 16 <= x < at + 4 * total implies
                #[trigger] m1.dom().contains(x) by {}
            assert(mapped(m1, at, 4 * n) && mapped(m1, at + 4 * n, 8) && mapped(
                m1,
                at + 4 * n + 8,
                8,
            ) && mapped(m1, at + 4 * n + 16, 4 * tail.len()));
            lemma_words_fit(m1, at, head, at + 4 * n, 8);
            lemma_words_fit(m1, at, head, at + 4 * n + 8, 8);
            lemma_words_fit(m1, at, head, at + 4 * n + 16, 4 * tail.len());
            lemma_put_u64_keeps(a, at + 4 * n, q0, at + 4 * n + 8, 8);
            lemma_put_u64_keeps(a, at + 4 * n, q0, at + 4 * n + 16, 4 * tail.len());
            lemma_put_u64_keeps(b, at + 4 * n + 8, q1, at + 4 * n + 16, 4 * tail.len());
            lemma_words_fit(c, at + 4 * n + 16, tail, 0, 0);
        }
        if p != 0 {
            lemma_write_words_back(m1, at, head);
            law_read_back_u64(a, at + 4 * n, q0);
            law_read_back_u64(b, at + 4 * n + 8, q1);
            lemma_write_words_back(c, at + 4 * n + 16, tail);
            assert forall|i: int| 0 <= i < n implies #[trigger] dword(after.mem, p, i) == Some(
                head[i],
            ) by {
                let x = at + 4 * i;
                lemma_word(a, at, head, i);
                lemma_put_u64_elsewhere(a, at + 4 * n, q0, x, 4);
                lemma_put_u64_elsewhere(b, at + 4 * n + 8, q1, x, 4);
                lemma_write_words_elsewhere(c, at + 4 * n + 16, tail, x, 4);
            }
            lemma_put_u64_elsewhere(b, at + 4 * n + 8, q1, at + 4 * n, 8);
            lemma_write_words_elsewhere(c, at + 4 * n + 16, tail, at + 4 * n, 8);
            lemma_write_words_elsewhere(c, at + 4 * n + 16, tail, at + 4 * n + 8, 8);
            assert forall|i: int| n + 4 <= i < n + 4 + tail.len() implies #[trigger] dword(
                after.mem,
                p,
                i,
            ) == Some(tail[i - n - 4]) by {
                lemma_word(d, at + 4 * n + 16, tail, i - n - 4);
            }
        }
    }
}

/// A copy of the graphics queue holds the whole destination (behind the length) and
/// the whole source behind that. The length is neither zero nor broken.
pub proof fn law_dma_packet(m: Machine, a: Seq<u64>)
    ensures
        ({
            let (after, p) = returned(AgcExport::DcbDmaData, m, a);
            let accepted = arg(a, 8) as u32 != 0 && arg(a, 8) as u32 & 3 == 0;
            &&& !accepted ==> p == 0 && after == m
            &&& accepted && room(m, arg(a, 0), 8) ==> p == cursor(m, arg(a, 0))
            &&& p != 0 ==> {
                &&& accepted
                &&& dword(after.mem, p, 0) == Some(0xC006_1064u32)
                &&& dword(after.mem, p, 1) == Some(
                    ((arg(a, 1) & 0xFF) as u32) | (((arg(a, 2) & 0xFF) as u32) << 8) | (((arg(a, 3)
                        & 0xFF) as u32) << 16) | (((arg(a, 5) & 0xFF) as u32) << 24),
                )
                &&& dword(after.mem, p, 2) == Some(
                    ((arg(a, 6) & 0xFF) as u32) | (((arg(a, 9) & 0xFF) as u32) << 8) | (((arg(a, 10)
                        & 0xFF) as u32) << 16) | (((arg(a, 11) & 0xFF) as u32) << 24),
                )
                &&& dword(after.mem, p, 3) == Some(arg(a, 8) as u32)
                &&& qword(after.mem, p, 4) == Some(arg(a, 4))
                &&& qword(after.mem, p, 6) == Some(arg(a, 7))
            }
        }),
{
    let head = seq![
        header(8, IT_NOP, R_DMA_DATA),
        bytes4(arg(a, 1), arg(a, 2), arg(a, 3), arg(a, 5)),
        bytes4(arg(a, 6), arg(a, 9), arg(a, 10), arg(a, 11)),
        arg(a, 8) as u32,
    ];
    lemma_headers();
    lemma_quads(m, arg(a, 0), head, arg(a, 4), arg(a, 7), Seq::empty());
}

/// A copy of a compute queue holds the whole destination and source, the length, at
/// most 256 MiB, and the two selections.
pub proof fn law_acb_dma_packet(m: Machine, a: Seq<u64>)
    ensures
        ({
            let (after, p) = returned(AgcExport::AcbDmaData, m, a);
            let accepted = 0 < arg(a, 7) as u32 <= 0x1000_0000;
            &&& !accepted ==> p == 0 && after == m
            &&& accepted && room(m, arg(a, 0), 7) ==> p == cursor(m, arg(a, 0))
            &&& p != 0 ==> {
                &&& accepted
                &&& dword(after.mem, p, 0) == Some(0xC005_1064u32)
                &&& qword(after.mem, p, 1) == Some(arg(a, 3))
                &&& qword(after.mem, p, 3) == Some(arg(a, 6))
                &&& dword(after.mem, p, 5) == Some(arg(a, 7) as u32)
                &&& dword(after.mem, p, 6) == Some(
                    ((arg(a, 1) & 0xFF) as u32) | (((arg(a, 2) & 0xFF) as u32) << 8),
                )
            }
        }),
{
    let tail = seq![
        arg(a, 7) as u32,
        ((arg(a, 1) & 0xFF) as u32) | (((arg(a, 2) & 0xFF) as u32) << 8),
    ];
    lemma_headers();
    lemma_quads(
        m,
        arg(a, 0),
        seq![header(7, IT_NOP, R_DMA_DATA)],
        arg(a, 3),
        arg(a, 6),
        tail,
    );
}

/// DWORDs that are copied from a source apart from their place are those of the
/// source.
proof fn lemma_copied(m: Mem, src: u64, dst: int, n: nat, lenient: bool, i: int)
    requires
        copy_words(m, src, dst, n, lenient).1,
        0 <= i < n,
        src == 0 || apart(src as int, 4 * n as int, dst, 4 * n as int),
    ensures
        copied(m, src, i, lenient) is Some,
        load_u32(copy_words(m, src, dst, n, lenient).0, dst + 4 * i) == copied(m, src, i, lenient),
    decreases n,
{
    let before = copy_words(m, src, dst, (n - 1) as nat, lenient).0;
    let last = dst + 4 * (n - 1);
    if src != 0 {
        lemma_copy_words_elsewhere(
            m,
            src,
            dst,
            (n - 1) as nat,
            lenient,
            src + 4 * (n - 1),
            4,
        );
    }
    let v = copied(before, src, n - 1, lenient)->0;
    if i == n - 1 {
        law_read_back_u32(before, last, v);
    } else {
        lemma_copied(m, src, dst, (n - 1) as nat, lenient, i);
        lemma_put_u32_elsewhere(before, last, v, dst + 4 * i, 4);
    }
}

/// A copy happens where its place is mapped and its source can be read.
proof fn lemma_copy_fits(m: Mem, src: u64, dst: int, n: nat, lenient: bool, x: int, k: nat)
    ensures
        mapped(copy_words(m, src, dst, n, lenient).0, x, k) == mapped(m, x, k),
        mapped(m, dst, 4 * n) && (src == 0 || lenient || mapped(m, src as int, 4 * n))
            ==> copy_words(m, src, dst, n, lenient).1,
    decreases n,
{
    if n > 0 {
        let k1 = (n - 1) as nat;
        lemma_copy_fits(m, src, dst, k1, lenient, x, k);
        let before = copy_words(m, src, dst, k1, lenient).0;
        let last = dst + 4 * (n - 1);
        if let Some(v) = copied(before, src, n - 1, lenient) {
            lemma_put_u32_keeps(before, last, v, x, k);
        }
        if mapped(m, dst, 4 * n) && (src == 0 || lenient || mapped(m, src as int, 4 * n)) {
            assert forall|y: int| dst <= y < dst + 4 * k1 implies #[trigger] m.dom().contains(
                y,
            ) by {}
            assert forall|y: int| last <= y < last + 4 implies #[trigger] m.dom().contains(y) by {}
            assert(mapped(m, dst, 4 * k1) && mapped(m, last, 4));
            lemma_copy_fits(m, src, dst, k1, lenient, last, 4);
            if !(src == 0 || lenient) {
                let s = src + 4 * (n - 1);
                assert forall|y: int| src <= y < src + 4 * k1 implies #[trigger] m.dom().contains(
                    y,
                ) by {}
                assert forall|y: int| s <= y < s + 4 implies #[trigger] m.dom().contains(y) by {}
                assert(mapped(m, src as int, 4 * k1) && mapped(m, s, 4));
                lemma_copy_fits(m, src, dst, k1, lenient, s, 4);
            }
            let v = copied(before, src, n - 1, lenient)->0;
            lemma_put_u32_keeps(before, last, v, 0, 0);
        }
    }
}

/// A packet with DWORDs copied from guest memory behind its head.
proof fn lemma_copy_packet(m: Machine, cb: u64, head: Seq<u32>, src: u64, n: u64, lenient: bool)
    requires
        0 < head.len() <= 8,
        n <= 0x1_0000_0000,
    ensures
        ({
            let (after, p) = emit_copy(m, cb, head, src, n, lenient);
            let k = head.len();
            &&& room(m, cb, (k + n) as int) && (src == 0 || lenient || mapped(
                m.mem,
                src as int,
                4 * n as nat,
            )) ==> p == cursor(m, cb)
            &&& p != 0 ==> {
                &&& p == cursor(m, cb)
                &&& forall|i: int| 0 <= i < k ==> #[trigger] dword(after.mem, p, i) == Some(head[i])
                &&& k >= 4 ==> qword(after.mem, p, 2) == Some(
                    joined(head[2], head[3]),
                )
                &&& src == 0 || (apart(src as int, 4 * n, p as int, 4 * (k + n)) && apart(
                    src as int,
                    4 * n,
                    cb + 0x10,
                    8,
                )) ==> forall|i: int|
                    k <= i < k + n ==> #[trigger] dword(after.mem, p, i) == copied(
                        m.mem,
                        src,
                        i - k,
                        lenient,
                    )
                &&& forall|x: int, j: nat|
                    (x + j <= p || p + 4 * (k + n) <= x) && clear_of_cursor(cb, x, j as int)
                        ==> #[trigger] load(after.mem, x, j) == load(m.mem, x, j)
            }
        }),
{
    let k = head.len();
    let total = (k + n) as u64;
    let (after, p) = emit_copy(m, cb, head, src, n, lenient);
    if room(m, cb, total as int) {
        lemma_room(m, cb, total);
    }
    if cb != 0 && allocate(m, cb, total).1 is Some {
        let at = allocate(m, cb, total).1->0 as int;
        let m1 = allocate(m, cb, total).0.mem;
        let a = write_words(m1, at, head).0;
        let dst = at + 4 * k;
        let b = copy_words(a, src, dst, n as nat, lenient).0;
        law_allocation_moves_cursor(m, cb, total);
        if room(m, cb, total as int) {
            assert forall|x: int| at <= x < at + 4 * k implies #[trigger] m1.dom().contains(x) by {}
            assert forall|x: int| dst <= x < dst + 4 * n implies #[trigger] m1.dom().contains(
                x,
            ) by {}
            assert(mapped(m1, at, 4 * k) && mapped(m1, dst, 4 * n as nat));
            lemma_words_fit(m1, at, head, dst, 4 * n as nat);
            lemma_words_fit(m1, at, head, src as int, 4 * n as nat);
            lemma_put_u64_keeps(m.mem, cb + 0x10, (at + 4 * total) as u64, src as int, 4 * n as nat);
            lemma_copy_fits(a, src, dst, n as nat, lenient, 0, 0);
        }
        if p != 0 {
            lemma_write_words_back(m1, at, head);
            assert forall|i: int| 0 <= i < k implies #[trigger] dword(after.mem, p, i) == Some(
                head[i],
            ) by {
                lemma_word(a, at, head, i);
                lemma_copy_words_elsewhere(a, src, dst, n as nat, lenient, at + 4 * i, 4);
            }
            if k >= 4 {
                assert(dword(after.mem, p, 2) == Some(head[2]));
                assert(dword(after.mem, p, 3) == Some(head[3]));
                law_two_dwords_are_one_qword(after.mem, p + 8);
            }
            if src == 0 || (apart(src as int, 4 * n, p as int, 4 * (k + n)) && apart(
                src as int,
                4 * n,
                cb + 0x10,
                8,
            )) {
                assert forall|i: int| k <= i < k + n implies #[trigger] dword(after.mem, p, i)
                    == copied(m.mem, src, i - k, lenient) by {
                    let j = i - k;
                    lemma_copied(a, src, dst, n as nat, lenient, j);
                    if src != 0 {
                        lemma_write_words_elsewhere(m1, at, head, src + 4 * j, 4);
                        lemma_put_u64_elsewhere(
                            m.mem,
                            cb + 0x10,
                            (at + 4 * total) as u64,
                            src + 4 * j,
                            4,
                        );
                    }
                    assert(p + 4 * i == dst + 4 * j);
                }
            }
            assert forall|x: int, j: nat|
                (x + j <= p || p + 4 * (k + n) <= x) && clear_of_cursor(cb, x, j as int) implies
                #[trigger] load(after.mem, x, j) == load(m.mem, x, j) by {
                lemma_put_u64_elsewhere(m.mem, cb + 0x10, (at + 4 * total) as u64, x, j);
                lemma_write_words_elsewhere(m1, at, head, x, j);
                lemma_copy_words_elsewhere(a, src, dst, n as nat, lenient, x, j);
            }
        }
    }
}

/// A write of data holds the four selections, the whole destination, and the
/// DWORDs of the caller's data, or zeros where there is none; at most 0x3FFD of
/// them. (The data is apart from the packet and the buffer's cursor.)
pub proof fn law_write_data_packet(m: Machine, a: Seq<u64>)
    ensures
        ({
            let (after, p) = returned(AgcExport::DcbWriteData, m, a);
            let n = arg(a, 5) as u32;
            let src = arg(a, 4);
            &&& n > 0x3FFD ==> p == 0 && after == m
            &&& n <= 0x3FFD && room(m, arg(a, 0), n + 4) && (src == 0 || mapped(
                m.mem,
                src as int,
                4 * n as nat,
            )) ==> p == cursor(m, arg(a, 0))
            &&& p != 0 ==> {
                &&& n <= 0x3FFD
                &&& dword(after.mem, p, 0) == Some((0xC002_1054 + 0x1_0000 * n) as u32)
                &&& dword(after.mem, p, 1) == Some(
                    ((arg(a, 1) & 0xFF) as u32) | (((arg(a, 2) & 0xFF) as u32) << 8) | (((arg(a, 6)
                        & 0xFF) as u32) << 16) | (((arg(a, 7) & 0xFF) as u32) << 24),
                )
                &&& qword(after.mem, p, 2) == Some(arg(a, 3))
                &&& src == 0 ==> forall|i: int|
                    4 <= i < n + 4 ==> #[trigger] dword(after.mem, p, i) == Some(0u32)
                &&& src != 0 && apart(src as int, 4 * n, p as int, 4 * (4 + n)) && apart(
                    src as int,
                    4 * n,
                    arg(a, 0) + 0x10,
                    8,
                ) ==> forall|i: int|
                    4 <= i < n + 4 ==> #[trigger] dword(after.mem, p, i) == load_u32(
                        m.mem,
                        src + 4 * (i - 4),
                    )
            }
        }),
{
    let n = arg(a, 5) as u32;
    let src = arg(a, 4);
    if n <= 0x3FFD {
        let head = seq![
            header((n + 4) as u32, IT_NOP, R_WRITE_DATA),
            bytes4(arg(a, 1), arg(a, 2), arg(a, 6), arg(a, 7)),
            lo(arg(a, 3)),
            hi(arg(a, 3)),
        ];
        law_header_value((n + 4) as u32, IT_NOP, R_WRITE_DATA);
        lemma_halves();
        lemma_copy_packet(m, arg(a, 0), head, src, n as u64, false);
        let (after, p) = dcb_write_data(m, a);
        assert((after, p) == emit_copy(m, arg(a, 0), head, src, n as u64, false));
        if p != 0 {
            assert(dword(after.mem, p, 0) == Some(head[0]));
            assert(dword(after.mem, p, 1) == Some(head[1]));
        }
    }
}

/// A range of configuration registers holds its first offset, 16 bits of it, and
/// the values at the caller's address; what cannot be read counts as zero. A range
/// has 1 to 4096 registers.
pub proof fn law_uc_range_packet(m: Machine, a: Seq<u64>)
    ensures
        ({
            let (after, p) = returned(AgcExport::CbSetUcRegisterRange, m, a);
            let n = arg(a, 3);
            let src = arg(a, 2);
            let accepted = 1 <= n <= 4096;
            &&& !accepted ==> p == 0 && after == m
            &&& accepted && room(m, arg(a, 0), n + 2) ==> p == cursor(m, arg(a, 0))
            &&& p != 0 ==> {
                &&& accepted
                &&& dword(after.mem, p, 0) == Some((0xC000_7900 + 0x1_0000 * n) as u32)
                &&& dword(after.mem, p, 1) == Some(arg(a, 1) as u32 & 0xFFFF)
                &&& apart(src as int, 4 * n, p as int, 4 * (2 + n)) && apart(
                    src as int,
                    4 * n,
                    arg(a, 0) + 0x10,
                    8,
                ) ==> forall|i: int|
                    2 <= i < n + 2 ==> #[trigger] dword(after.mem, p, i) == Some(
                        value_at(m.mem, src, i - 2),
                    )
            }
        }),
{
    let n = arg(a, 3);
    if 1 <= n <= 4096 {
        let head = seq![
            header((n + 2) as u32, IT_SET_UCONFIG_REG, R_ZERO),
            lo(arg(a, 1)) & 0xFFFF,
        ];
        law_header_value((n + 2) as u32, IT_SET_UCONFIG_REG, R_ZERO);
        lemma_copy_packet(m, arg(a, 0), head, arg(a, 2), n, true);
        let (after, p) = cb_set_uc_register_range(m, a);
        assert((after, p) == emit_copy(m, arg(a, 0), head, arg(a, 2), n, true));
        if p != 0 {
            assert(dword(after.mem, p, 0) == Some(head[0]));
            assert(dword(after.mem, p, 1) == Some(head[1]));
        }
    }
}

/// Value `i` of the list at `src`: zero where the list is null or cannot be read.
pub open spec fn value_at(m: Mem, src: u64, i: int) -> u32 {
    if src != 0 && load_u32(m, src + 4 * i) is Some {
        load_u32(m, src + 4 * i)->0
    } else {
        0
    }
}

/// A range of shader registers is marked by a packet before it, and holds its first
/// offset, from 1 to 0x3FF, and the values at the caller's address. (Ranges that
/// fit a packet; the packets are apart from the buffer's cursor.)
pub proof fn law_sh_range_packets(m: Machine, a: Seq<u64>)
    requires
        arg(a, 3) <= 0x3FFF,
    ensures
        ({
            let (after, p) = returned(AgcExport::CbSetShRegisterRange, m, a);
            let n = arg(a, 3);
            let cb = arg(a, 0);
            let src = arg(a, 2);
            let offset = arg(a, 1) as u32;
            let accepted = 1 <= offset <= 0x3FF && n != 0;
            &&& !accepted ==> p == 0 && after == m
            &&& p != 0 ==> accepted
            &&& p != 0 && clear_of_cursor(cb, cursor(m, cb) as int, 4 * (4 + n)) ==> {
                &&& p == cursor(m, cb) + 8
                &&& load_u32(after.mem, p - 8) == Some(0xC000_1000u32)
                &&& load_u32(after.mem, p - 4) == Some(0x6875_000Du32)
                &&& dword(after.mem, p, 0) == Some((0xC000_7600 + 0x1_0000 * n) as u32)
                &&& dword(after.mem, p, 1) == Some(offset)
                &&& apart(src as int, 4 * n, p - 8, 4 * (4 + n)) && apart(
                    src as int,
                    4 * n,
                    cb + 0x10,
                    8,
                ) ==> forall|i: int|
                    2 <= i < n + 2 ==> #[trigger] dword(after.mem, p, i) == Some(
                        value_at(m.mem, src, i - 2),
                    )
            }
        }),
{
    let n = arg(a, 3);
    let cb = arg(a, 0);
    let src = arg(a, 2);
    let offset = arg(a, 1) as u32;
    let mark = seq![header(2, IT_NOP, R_ZERO), 0x6875_000Du32];
    let (after, p) = cb_set_sh_register_range(m, a);
    if 1 <= offset <= 0x3FF && n != 0 {
        let head = seq![header((n + 2) as u32, IT_SET_SH_REG, R_ZERO), offset];
        law_header_value(2, IT_NOP, R_ZERO);
        law_header_value((n + 2) as u32, IT_SET_SH_REG, R_ZERO);
        let (m1, first) = emit_at(m, cb, mark);
        lemma_emit_at(m, cb, mark);
        law_packet_reads_back(m, cb, mark);
        if let Some(at) = first {
            lemma_copy_packet(m1, cb, head, src, n, true);
            if p != 0 && clear_of_cursor(cb, cursor(m, cb) as int, 4 * (4 + n)) {
                assert((after, p) == emit_copy(m1, cb, head, src, n, true));
                assert(p == at + 8);
                assert(load(after.mem, at as int, 4) == load(m1.mem, at as int, 4));
                assert(load(after.mem, at + 4, 4) == load(m1.mem, at + 4, 4));
                lemma_word(m1.mem, at as int, mark, 0);
                lemma_word(m1.mem, at as int, mark, 1);
                assert(dword(after.mem, p, 0) == Some(head[0]));
                assert(dword(after.mem, p, 1) == Some(head[1]));
                if apart(src as int, 4 * n, p - 8, 4 * (4 + n)) && apart(
                    src as int,
                    4 * n,
                    cb + 0x10,
                    8,
                ) {
                    assert forall|i: int| 2 <= i < n + 2 implies #[trigger] dword(after.mem, p, i)
                        == Some(value_at(m.mem, src, i - 2)) by {
                        if src != 0 {
                            assert(load(m1.mem, src + 4 * (i - 2), 4) == load(
                                m.mem,
                                src + 4 * (i - 2),
                                4,
                            ));
                        }
                        assert(dword(after.mem, p, i) == copied(m1.mem, src, i - 2, true));
                    }
                }
            }
        }
    }
}

/// A skip is a header and zeros, 2 to 0x4001 DWORDs in all.
pub proof fn law_nop_packet(m: Machine, a: Seq<u64>)
    ensures
        ({
            let (after, p) = returned(AgcExport::CbNop, m, a);
            let n = arg(a, 1);
            let accepted = 2 <= n <= 0x4001;
            &&& !accepted ==> p == 0 && after == m
            &&& accepted && room(m, arg(a, 0), n as int) ==> p == cursor(m, arg(a, 0))
            &&& p != 0 ==> {
                &&& accepted
                &&& dword(after.mem, p, 0) == Some((0xC000_1000 + 0x1_0000 * (n - 2)) as u32)
                &&& forall|i: int| 1 <= i < n ==> #[trigger] dword(after.mem, p, i) == Some(0u32)
            }
        }),
{
    let n = arg(a, 1);
    if 2 <= n <= 0x4001 {
        let words = seq![header(n as u32, IT_NOP, R_ZERO)] + Seq::new((n - 1) as nat, |i: int| 0u32);
        law_header_value(n as u32, IT_NOP, R_ZERO);
        law_packet_stands(m, arg(a, 0), words);
        let (after, p) = cb_nop(m, a);
        assert((after, p) == emit(m, arg(a, 0), words));
        if p != 0 {
            assert(dword(after.mem, p, 0) == Some(words[0]));
        }
    }
}

/// The bytes of a packed DWORD are the bytes it was packed from.
proof fn lemma_packed(s: Seq<u8>, i: int)
    ensures
        ({
            let b = spec_u32_to_le_bytes(packed(s, i));
            &&& b.len() == 4
            &&& forall|k: int|
                0 <= k < 4 ==> #[trigger] b[k] == (if 0 <= i + k < s.len() {
                    s[i + k]
                } else {
                    0
                })
        }),
{
    let byte = |k: int|
        if 0 <= i + k < s.len() {
            s[i + k]
        } else {
            0
        };
    let b0: u8 = byte(0);
    let b1: u8 = byte(1);
    let b2: u8 = byte(2);
    let b3: u8 = byte(3);
    assert((b0 as u32) | ((b1 as u32) << 8) | ((b2 as u32) << 16) | ((b3 as u32) << 24) == b0
        + 0x100 * (b1 + 0x100 * (b2 + 0x100 * b3))) by (bit_vector);
    let four = seq![b0, b1, b2, b3];
    reveal(spec_u32_from_le_bytes);
    assert(packed(s, i) == spec_u32_from_le_bytes(four));
    lemma_auto_spec_u32_to_from_le_bytes();
}

/// A marker of either kind holds the bytes of its text, and zeros behind them, at
/// least one, up to a whole DWORD.
proof fn lemma_marker(m: Machine, a: Seq<u64>, reg: u32)
    requires
        reg <= 0x3F,
    ensures
        marker_stands(m, a, reg, dcb_marker(m, a, reg)),
{
    if let Some(s) = cstring(m.mem, arg(a, 1) as int, 4095) {
        lemma_text_length(m.mem, arg(a, 1) as int, 4095);
        let words = marker_words(s, reg);
        let d = packed_dwords(s);
        assert(d as int == s.len() as int / 4 + 1);
        law_header_value((d + 1) as u32, IT_NOP, reg);
        law_packet_stands(m, arg(a, 0), words);
        let (after, p) = dcb_marker(m, a, reg);
        assert((after, p) == emit(m, arg(a, 0), words));
        if p != 0 {
            assert(dword(after.mem, p, 0) == Some(words[0]));
            assert forall|i: int| 0 <= i < 4 * d implies #[trigger] after.mem[p + 4 + i] == (if i
                < s.len() {
                s[i]
            } else {
                0
            }) by {
                let k = i / 4;
                let w = words[k + 1];
                assert(w == packed(s, 4 * k));
                assert(dword(after.mem, p, k + 1) == Some(w));
                lemma_packed(s, 4 * k);
                lemma_auto_spec_u32_to_from_le_bytes();
                let at = p + 4 * (k + 1);
                let b = load(after.mem, at, 4)->0;
                assert(b == spec_u32_to_le_bytes(w));
                assert(b[i % 4] == after.mem[at + i % 4]);
                assert(at + i % 4 == p + 4 + i);
            }
        }
    }
}

proof fn lemma_text_length(m: Mem, at: int, max: nat)
    ensures
        cstring(m, at, max) is Some ==> cstring(m, at, max)->0.len() <= max,
    decreases max,
{
    if max > 0 {
        lemma_text_length(m, at + 1, (max - 1) as nat);
    }
}

/// What becomes of a marker call: without a readable text of at most 4095 bytes
/// nothing, and otherwise a packet that holds the text.
pub open spec fn marker_stands(m: Machine, a: Seq<u64>, reg: u32, r: (Machine, u64)) -> bool {
    match cstring(m.mem, arg(a, 1) as int, 4095) {
        None => r == (m, 0u64),
        Some(s) => {
            let d = s.len() as int / 4 + 1;
            &&& room(m, arg(a, 0), d + 1) ==> r.1 == cursor(m, arg(a, 0))
            &&& r.1 != 0 ==> {
                &&& dword(r.0.mem, r.1, 0) == Some(
                    (0xC000_1000 + 0x1_0000 * (d - 1) + 4 * reg) as u32,
                )
                &&& forall|i: int|
                    0 <= i < 4 * d ==> #[trigger] r.0.mem[r.1 + 4 + i] == (if i < s.len() {
                        s[i]
                    } else {
                        0
                    })
            }
        },
    }
}

/// The markers: a push carries discriminator 0x0B, a set carries none.
pub proof fn law_marker_packets(m: Machine, a: Seq<u64>)
    ensures
        ({
            let (after, reply) = effect(AgcExport::DcbPushMarker, m, a);
            reply is Return && marker_stands(m, a, 0x0B, (after, reply->Return_0))
        }),
        ({
            let (after, reply) = effect(AgcExport::DcbSetMarker, m, a);
            reply is Return && marker_stands(m, a, 0, (after, reply->Return_0))
        }),
{
    lemma_marker(m, a, 0x0B);
    lemma_marker(m, a, 0);
}

/// The mask of a list of workloads: each id is below 64 and occurs once, and the
/// bits of the mask are the ids.
pub proof fn law_workload_mask(m: Mem, a: int, n: nat, k: u64)
    requires
        workload_mask(m, a, n) is Some,
        k < 64,
    ensures
        workload_mask(m, a, n)->0 & (1u64 << k) != 0 <==> exists|i: int|
            0 <= i < n && #[trigger] load_u32(m, a + 4 * i) == Some(k as u32),
        forall|i: int|
            0 <= i < n ==> (#[trigger] load_u32(m, a + 4 * i)) is Some && load_u32(m, a + 4 * i)->0
                <= 63,
        forall|i: int, j: int|
            0 <= i < j < n ==> #[trigger] load_u32(m, a + 4 * i) != #[trigger] load_u32(
                m,
                a + 4 * j,
            ),
    decreases n,
{
    if n == 0 {
        assert(0u64 & (1u64 << k) == 0) by (bit_vector);
    } else {
        let mask = workload_mask(m, a, (n - 1) as nat)->0;
        let id = load_u32(m, a + 4 * (n - 1))->0;
        law_workload_mask(m, a, (n - 1) as nat, k);
        law_workload_mask(m, a, (n - 1) as nat, id as u64);
        assert((mask | (1u64 << id)) & (1u64 << k) != 0 <==> mask & (1u64 << k) != 0 || k == id)
            by (bit_vector)
            requires
                k < 64,
                id < 64,
        ;
        if exists|i: int| 0 <= i < n && #[trigger] load_u32(m, a + 4 * i) == Some(k as u32) {
            let i = choose|i: int|
                0 <= i < n && #[trigger] load_u32(m, a + 4 * i) == Some(k as u32);
            if i < n - 1 {
                assert(load_u32(m, a + 4 * i) == Some(k as u32));
            } else {
                assert(id == k);
            }
        }
        assert forall|i: int, j: int| 0 <= i < j < n implies #[trigger] load_u32(m, a + 4 * i)
            != #[trigger] load_u32(m, a + 4 * j) by {
            if j == n - 1 && load_u32(m, a + 4 * i) == Some(id) {
                assert(mask & (1u64 << (id as u64)) != 0);
                assert(1u64 << (id as u64) == 1u64 << id);
            }
        }
    }
}

/// The workloads of a stream: the packet holds the stream, 1 to 31, and the whole
/// 64-bit mask of the listed ids, of which there are 1 to 63.
pub proof fn law_workloads_packet(m: Machine, a: Seq<u64>)
    ensures
        ({
            let (after, p) = returned(AgcExport::DcbSetWorkloadsActive, m, a);
            let valid = arg(a, 2) != 0 && 1 <= arg(a, 3) <= 63 && 1 <= arg(a, 1) <= 31;
            let mask = workload_mask(m.mem, arg(a, 2) as int, arg(a, 3) as nat);
            &&& !valid || mask is None ==> p == 0 && after == m
            &&& valid && mask is Some && room(m, arg(a, 0), 18) ==> p == cursor(m, arg(a, 0))
            &&& p != 0 ==> {
                &&& dword(after.mem, p, 0) == Some(0xC010_1000u32)
                &&& dword(after.mem, p, 1) == Some(arg(a, 1) as u32)
                &&& qword(after.mem, p, 2) == mask
                &&& forall|i: int| 4 <= i < 18 ==> #[trigger] dword(after.mem, p, i) == Some(0u32)
            }
        }),
{
    let mask = workload_mask(m.mem, arg(a, 2) as int, arg(a, 3) as nat)->0;
    let words = seq![header(18, IT_NOP, R_ZERO), lo(arg(a, 1)), lo(mask), hi(mask)] + Seq::new(
        14,
        |i: int| 0u32,
    );
    lemma_headers();
    lemma_halves();
    law_packet_stands(m, arg(a, 0), words);
    let (after, p) = dcb_set_workloads_active(m, a);
    if p != 0 {
        assert((after, p) == emit(m, arg(a, 0), words));
        assert(dword(after.mem, p, 0) == Some(words[0]));
        assert(dword(after.mem, p, 1) == Some(words[1]));
        assert(qword(after.mem, p, 2) == Some(joined(words[2], words[3])));
    }
}

/// A register list as it stands in memory: eight bytes to each, the offset first and
/// the value behind it.
pub proof fn law_register_list_is_read(m: Mem, at: int, n: nat)
    requires
        read_registers(m, at, n) is Some,
    ensures
        read_registers(m, at, n)->0.len() == n,
        forall|i: int|
            0 <= i < n ==> Some((#[trigger] read_registers(m, at, n)->0[i]).0) == load_u32(
                m,
                at + 8 * i,
            ) && Some(read_registers(m, at, n)->0[i].1) == load_u32(m, at + 8 * i + 4),
    decreases n,
{
    if n > 0 {
        law_register_list_is_read(m, at, (n - 1) as nat);
        let s = read_registers(m, at, n)->0;
        let init = read_registers(m, at, (n - 1) as nat)->0;
        assert forall|i: int| 0 <= i < n implies Some((#[trigger] s[i]).0) == load_u32(
            m,
            at + 8 * i,
        ) && Some(s[i].1) == load_u32(m, at + 8 * i + 4) by {
            if i < n - 1 {
                assert(s[i] == init[i]);
            }
        }
    }
}

/// What a register list asks for: nothing where a list, a buffer or a count is
/// missing, where there are more than 4096 registers, or where one cannot be read;
/// and otherwise packets for the registers in ascending order.
pub open spec fn list_is_set(m: Machine, a: Seq<u64>, op: u32, r: (Machine, u64)) -> bool {
    let n = arg(a, 2) as u32;
    let list = read_registers(m.mem, arg(a, 1) as int, n as nat);
    let valid = 1 <= n <= 4096 && arg(a, 0) != 0 && arg(a, 1) != 0 && list is Some;
    &&& !valid ==> r == (m, 0u64)
    &&& valid ==> r == emit_runs(m, arg(a, 0), sort_registers(list->0), 0, 0, op)
    &&& valid && n == 1 && r.1 != 0 ==> {
        &&& dword(r.0.mem, r.1, 0) == Some((0xC001_0000 + 0x100 * op) as u32)
        &&& Some((list->0)[0].0) == load_u32(m.mem, arg(a, 1) as int)
        &&& dword(r.0.mem, r.1, 1) == Some((list->0)[0].0 & 0xFFFF)
        &&& dword(r.0.mem, r.1, 2) == load_u32(m.mem, arg(a, 1) + 4)
    }
}

/// The two register lists: shader registers (opcode 0x76) and configuration registers
/// (0x79).
pub proof fn law_register_lists(m: Machine, a: Seq<u64>)
    ensures
        ({
            let (after, reply) = effect(AgcExport::CbSetShRegistersDirect, m, a);
            reply is Return && list_is_set(m, a, 0x76, (after, reply->Return_0))
        }),
        ({
            let (after, reply) = effect(AgcExport::CbSetUcRegistersDirect, m, a);
            reply is Return && list_is_set(m, a, 0x79, (after, reply->Return_0))
        }),
{
    lemma_one_register(m, a, 0x76);
    lemma_one_register(m, a, 0x79);
}

proof fn lemma_one_register(m: Machine, a: Seq<u64>, op: u32)
    requires
        op <= 0xFF,
    ensures
        list_is_set(m, a, op, cb_set_registers_direct(m, a, op)),
{
    let n = arg(a, 2) as u32;
    let r = cb_set_registers_direct(m, a, op);
    if n == 1 && arg(a, 0) != 0 && arg(a, 1) != 0 {
        if let Some(list) = read_registers(m.mem, arg(a, 1) as int, 1) {
            law_register_list_is_read(m.mem, arg(a, 1) as int, 1);
            let p = list[0];
            reveal_with_fuel(sort_registers, 2);
            assert(sort_registers(list.drop_last()) =~= Seq::<Register>::empty());
            assert(sort_registers(list) =~= seq![p]);
            let s = sort_registers(list);
            assert(run_end(s, 1) == 1);
            assert(s.subrange(0, 1) =~= seq![p]);
            let words = run_words(s.subrange(0, 1), op);
            assert(words.len() == 3);
            law_header_value(3, op, R_ZERO);
            law_packet_stands(m, arg(a, 0), words);
            reveal_with_fuel(emit_runs, 2);
            if r.1 != 0 {
                assert(r == emit(m, arg(a, 0), words));
                assert(dword(r.0.mem, r.1, 0) == Some(words[0]));
                assert(dword(r.0.mem, r.1, 1) == Some(words[1]));
                assert(dword(r.0.mem, r.1, 2) == Some(words[2]));
            }
        }
    }
}

} // verus!
