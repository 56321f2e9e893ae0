//! How the builders use the command buffer: where packets go, and how the sizes
//! that are reported relate to what the builders take.
use vstd::prelude::*;
use crate::agc::builders::{
    acb_acquire_mem, acb_dispatch_indirect, acb_event_write, acb_wait_reg_mem, cb_branch,
    cb_dispatch, cb_release_mem, dcb_acquire_mem, dcb_cond_exec, dcb_copy_data,
    dcb_dispatch_indirect, dcb_draw_index_auto, dcb_draw_index_indirect,
    dcb_draw_index_multi_instanced, dcb_draw_index_offset, dcb_draw_indirect,
    dcb_draw_indirect_multi_op, dcb_event_write, dcb_get_lod_stats, dcb_jump, dcb_rewind,
    dcb_set_base_indirect_args, dcb_set_index_buffer, dcb_set_index_count, dcb_set_index_size,
    dcb_set_num_instances, dcb_set_predication, dcb_set_register_direct, dcb_set_registers_indirect,
    dcb_stall_command_buffer_parser, dcb_wait_reg_mem, prime_utcl2,
};
use crate::agc::data::{
    acb_dma_data, cb_nop, cb_set_sh_register_range, cb_set_uc_register_range, copied, copy_words,
    dcb_dma_data, dcb_draw_index, dcb_write_data, emit_copy, emit_with_quads, index_binding_words,
    SET_SH_RANGE_MARKER,
};
use crate::agc::packet::{
    allocate, allocation, emit, emit_at, header, law_header_roundtrip, lo, write_words,
    CB_CURSOR_DOWN, CB_CURSOR_UP, CB_RESERVED_DW, IT_DRAW_INDEX_2, IT_NOP, IT_SET_SH_REG, R_ZERO,
};
use crate::agc::patch::{
    dma_data_patch_address, dma_data_patch_src, get_data_packet_payload_address,
    get_data_packet_payload_range, get_packet_size, identity, queue_eop_patch_address,
    wait_reg_mem_patch_address, write_data_patch_address,
};
use crate::agc::registers::{
    cb_set_registers_direct, emit_runs, law_sort_registers, lemma_run_end, read_registers, run_end,
    run_words, sort_registers, Register,
};
use crate::agc::sizes::{
    lod_stats_size, nop_size, registers_direct_size, sh_register_range_dwords,
    uc_register_range_size, write_data_size,
};
use crate::context::{arg, Machine, OK};
use crate::mem::{
    law_put_keeps_mapping, law_read_back_u32, law_read_back_u64, law_read_elsewhere, load, load_u32,
    load_u64, load_words, mapped, put_u32, put_u64, Mem,
};
use crate::bytes::{
    lemma_auto_spec_u32_to_from_le_bytes, lemma_auto_spec_u64_to_from_le_bytes,
    spec_u32_to_le_bytes, spec_u64_to_le_bytes,
};

verus! {

/// `n` bytes at `at` leave the cursor field of the buffer at `cb` alone.
pub open spec fn clear_of_cursor(cb: u64, at: int, n: int) -> bool {
    at + n <= cb + CB_CURSOR_UP || cb + CB_CURSOR_UP + 8 <= at
}

/// A builder that returned a packet's address took exactly `bytes` from there
/// on: the cursor stands behind them. (A packet that is written over the cursor
/// field itself is left out.)
pub open spec fn takes(cb: u64, r: (Machine, u64), bytes: int) -> bool {
    r.1 != 0 && clear_of_cursor(cb, r.1 as int, bytes) ==> load_u64(r.0.mem, cb + CB_CURSOR_UP)
        == Some((r.1 + bytes) as u64)
}

/// A builder that returned a packet's address took at most `bytes` from there
/// on.
pub open spec fn takes_at_most(cb: u64, r: (Machine, u64), bytes: int) -> bool {
    r.1 != 0 && clear_of_cursor(cb, r.1 as int, bytes) ==> {
        &&& load_u64(r.0.mem, cb + CB_CURSOR_UP) is Some
        &&& r.1 <= load_u64(r.0.mem, cb + CB_CURSOR_UP)->0 <= r.1 + bytes
    }
}

pub(crate) proof fn lemma_put_u32_elsewhere(m: Mem, a: int, v: u32, x: int, n: nat)
    requires
        x + n <= a || a + 4 <= x,
    ensures
        load(put_u32(m, a, v).0, x, n) == load(m, x, n),
{
    lemma_auto_spec_u32_to_from_le_bytes();
    law_read_elsewhere(m, a, spec_u32_to_le_bytes(v), x, n);
}

pub(crate) proof fn lemma_put_u64_elsewhere(m: Mem, a: int, v: u64, x: int, n: nat)
    requires
        x + n <= a || a + 8 <= x,
    ensures
        load(put_u64(m, a, v).0, x, n) == load(m, x, n),
{
    lemma_auto_spec_u64_to_from_le_bytes();
    law_read_elsewhere(m, a, spec_u64_to_le_bytes(v), x, n);
}

pub(crate) proof fn lemma_write_words_elsewhere(m: Mem, a: int, words: Seq<u32>, x: int, n: nat)
    requires
        x + n <= a || a + 4 * words.len() <= x,
    ensures
        load(write_words(m, a, words).0, x, n) == load(m, x, n),
    decreases words.len(),
{
    if words.len() > 0 {
        lemma_write_words_elsewhere(m, a, words.drop_last(), x, n);
        let before = write_words(m, a, words.drop_last()).0;
        lemma_put_u32_elsewhere(before, a + 4 * (words.len() - 1), words.last(), x, n);
    }
}

pub(crate) proof fn lemma_copy_words_elsewhere(
    m: Mem,
    src: u64,
    dst: int,
    k: nat,
    lenient: bool,
    x: int,
    n: nat,
)
    requires
        x + n <= dst || dst + 4 * k <= x,
    ensures
        load(copy_words(m, src, dst, k, lenient).0, x, n) == load(m, x, n),
    decreases k,
{
    if k > 0 {
        lemma_copy_words_elsewhere(m, src, dst, (k - 1) as nat, lenient, x, n);
        let before = copy_words(m, src, dst, (k - 1) as nat, lenient).0;
        match copied(before, src, k - 1, lenient) {
            Some(v) => lemma_put_u32_elsewhere(before, dst + 4 * (k - 1), v, x, n),
            None => {},
        }
    }
}

/// What an allocation hands out: the DWORDs start at the old cursor, the new
/// cursor stands behind them, and they leave the reserved tail of the buffer
/// free.
pub proof fn law_allocation_moves_cursor(m: Machine, cb: u64, n: u64)
    requires
        allocate(m, cb, n).1 is Some,
    ensures
        load_u64(m.mem, cb + CB_CURSOR_UP) == Some(allocate(m, cb, n).1->0),
        load_u64(allocate(m, cb, n).0.mem, cb + CB_CURSOR_UP) == Some(
            (allocate(m, cb, n).1->0 + 4 * n) as u64,
        ),
        load_u64(m.mem, cb + CB_CURSOR_DOWN) is Some,
        load_u32(m.mem, cb + CB_RESERVED_DW) is Some,
        allocate(m, cb, n).1->0 + 4 * n + 4 * load_u32(m.mem, cb + CB_RESERVED_DW)->0 <= load_u64(
            m.mem,
            cb + CB_CURSOR_DOWN,
        )->0,
{
    let at = allocate(m, cb, n).1->0;
    law_read_back_u64(m.mem, cb + CB_CURSOR_UP, (at + n * 4) as u64);
}

/// A builder that fails for want of room, or because the buffer is unreadable,
/// changes nothing.
pub proof fn law_refused_packet_changes_nothing(m: Machine, cb: u64, words: Seq<u32>)
    requires
        words.len() <= u64::MAX,
        cb == 0 || allocation(m.mem, cb, words.len() as u64) is None,
    ensures
        emit(m, cb, words) == (m, 0u64),
{
}

pub(crate) proof fn lemma_emit_at(m: Machine, cb: u64, words: Seq<u32>)
    requires
        words.len() <= u64::MAX,
    ensures
        ({
            let (after, at) = emit_at(m, cb, words);
            at is Some ==> {
                &&& load_u64(m.mem, cb + CB_CURSOR_UP) == at
                &&& at->0 + 4 * words.len() <= u64::MAX
                &&& clear_of_cursor(cb, at->0 as int, 4 * words.len() as int) ==> load_u64(
                    after.mem,
                    cb + CB_CURSOR_UP,
                ) == Some((at->0 + 4 * words.len()) as u64)
            }
        }),
{
    let n = words.len() as u64;
    if cb != 0 {
        match allocate(m, cb, n) {
            (m1, Some(at)) => {
                law_allocation_moves_cursor(m, cb, n);
                if clear_of_cursor(cb, at as int, 4 * words.len() as int) {
                    lemma_write_words_elsewhere(m1.mem, at as int, words, cb + CB_CURSOR_UP, 8);
                }
            },
            _ => {},
        }
    }
}

/// Every packet takes exactly its own length from the buffer.
pub proof fn law_packet_takes_its_length(m: Machine, cb: u64, words: Seq<u32>)
    requires
        words.len() <= u64::MAX,
    ensures
        takes(cb, emit(m, cb, words), 4 * words.len() as int),
{
    lemma_emit_at(m, cb, words);
}

/// Words that were written are read back.
pub(crate) proof fn lemma_write_words_back(m: Mem, a: int, words: Seq<u32>)
    requires
        write_words(m, a, words).1,
    ensures
        load_words(write_words(m, a, words).0, a, words.len()) == Some(words),
    decreases words.len(),
{
    let after = write_words(m, a, words).0;
    let n = words.len();
    if n > 0 {
        let init = words.drop_last();
        let before = write_words(m, a, init).0;
        let last = a + 4 * (n - 1);
        lemma_write_words_back(m, a, init);
        lemma_auto_spec_u32_to_from_le_bytes();
        law_read_back_u32(before, last, words.last());
        law_put_keeps_mapping(before, last, spec_u32_to_le_bytes(words.last()));
        assert(load_words(before, a, init.len())->0 == init);
        assert forall|x: int| a <= x < a + 4 * n implies #[trigger] after.dom().contains(x) by {
            assert(before.dom().contains(x));
        }
        assert forall|i: int| 0 <= i < n implies #[trigger] load_u32(after, a + 4 * i)->0
            == words[i] by {
            if i < n - 1 {
                lemma_put_u32_elsewhere(before, last, words.last(), a + 4 * i, 4);
                assert(load_words(before, a, init.len())->0[i] == init[i]);
            }
        }
    }
    assert(load_words(after, a, n)->0 =~= words);
}

/// A packet that was emitted stands at the address that the call returned, and
/// nothing else in memory changed but the buffer's cursor.
pub proof fn law_packet_reads_back(m: Machine, cb: u64, words: Seq<u32>)
    requires
        words.len() <= u64::MAX,
    ensures
        ({
            let (after, at) = emit_at(m, cb, words);
            at is Some ==> {
                &&& load_words(after.mem, at->0 as int, words.len()) == Some(words)
                &&& forall|x: int, n: nat|
                    (x + n <= at->0 || at->0 + 4 * words.len() <= x) && clear_of_cursor(
                        cb,
                        x,
                        n as int,
                    ) ==> #[trigger] load(after.mem, x, n) == load(m.mem, x, n)
            }
        }),
{
    let k = words.len() as u64;
    if cb != 0 {
        match allocate(m, cb, k) {
            (m1, Some(at)) => {
                let after = emit_at(m, cb, words).0;
                if emit_at(m, cb, words).1 is Some {
                    lemma_write_words_back(m1.mem, at as int, words);
                    assert forall|x: int, n: nat|
                        (x + n <= at || at + 4 * words.len() <= x) && clear_of_cursor(
                            cb,
                            x,
                            n as int,
                        ) implies #[trigger] load(after.mem, x, n) == load(m.mem, x, n) by {
                        lemma_put_u64_elsewhere(
                            m.mem,
                            cb + CB_CURSOR_UP,
                            (at + 4 * words.len()) as u64,
                            x,
                            n,
                        );
                        lemma_write_words_elsewhere(m1.mem, at as int, words, x, n);
                    }
                }
            },
            _ => {},
        }
    }
}

/// Packets that are emitted one after another stand end to end, and the second
/// leaves the first as it is.
pub proof fn law_packets_stand_end_to_end(m: Machine, cb: u64, first: Seq<u32>, second: Seq<u32>)
    requires
        first.len() <= u64::MAX,
        second.len() <= u64::MAX,
    ensures
        ({
            let (m1, a1) = emit_at(m, cb, first);
            let (m2, a2) = emit_at(m1, cb, second);
            a1 is Some && a2 is Some && clear_of_cursor(
                cb,
                a1->0 as int,
                4 * first.len() as int,
            ) ==> {
                &&& a2->0 == a1->0 + 4 * first.len()
                &&& load_words(m2.mem, a1->0 as int, first.len()) == Some(first)
            }
        }),
{
    let (m1, a1) = emit_at(m, cb, first);
    let (m2, a2) = emit_at(m1, cb, second);
    let n = first.len();
    if a1 is Some && a2 is Some && clear_of_cursor(cb, a1->0 as int, 4 * n as int) {
        let at = a1->0 as int;
        lemma_emit_at(m, cb, first);
        lemma_emit_at(m1, cb, second);
        law_packet_reads_back(m, cb, first);
        law_packet_reads_back(m1, cb, second);
        assert(load(m2.mem, at, 4 * n) == load(m1.mem, at, 4 * n));
        assert forall|i: int| 0 <= i < n implies #[trigger] load_u32(m2.mem, at + 4 * i)
            == load_u32(m1.mem, at + 4 * i) by {
            assert(load(m2.mem, at + 4 * i, 4) == load(m1.mem, at + 4 * i, 4));
        }
        assert(mapped(m2.mem, at, 4 * n));
        assert(load_words(m2.mem, at, n)->0 =~= load_words(m1.mem, at, n)->0);
    }
}

/// An indexed draw takes its two packets: the binding of the index buffer, and
/// the draw.
pub(crate) proof fn lemma_draw_index_takes(m: Machine, a: Seq<u64>)
    ensures
        takes(arg(a, 0), dcb_draw_index(m, a), 40),
{
    let cb = arg(a, 0);
    let count = lo(arg(a, 1));
    let binding = index_binding_words(arg(a, 2), count);
    let draw = seq![header(5, IT_DRAW_INDEX_2, R_ZERO), count, 0u32, 0u32, 0u32];
    let (m1, base) = emit_at(m, cb, binding);
    lemma_emit_at(m, cb, binding);
    lemma_emit_at(m1, cb, draw);
}

/// The sizes of fixed-length packets are what their builders take.
#[verifier::rlimit(60)]
#[verifier::spinoff_prover]
pub proof fn law_fixed_sizes_are_exact(m: Machine, a: Seq<u64>, op: u32, reg: u32)
    ensures
        takes(arg(a, 0), cb_dispatch(m, a), 20),
        takes(arg(a, 0), dcb_acquire_mem(m, a), 32),
        takes(arg(a, 0), acb_acquire_mem(m, a), 32),
        takes(arg(a, 0), dcb_jump(m, a), 16),
        takes(arg(a, 0), dcb_rewind(m, a), 8),
        takes(arg(a, 0), cb_release_mem(m, a), 32),
        takes(arg(a, 0), dcb_draw_index_indirect(m, a), 20),
        takes(arg(a, 0), dcb_stall_command_buffer_parser(m, a), 8),
        takes(arg(a, 0), dcb_set_num_instances(m, a), 8),
        takes(arg(a, 0), dcb_set_index_size(m, a), 8),
        takes(arg(a, 0), dcb_set_registers_indirect(m, a, reg), 16),
        takes(arg(a, 0), dcb_set_register_direct(m, a, op), 12),
        takes(arg(a, 0), dcb_dispatch_indirect(m, a), 12),
        takes(arg(a, 0), dcb_draw_index_offset(m, a), 20),
        takes(arg(a, 0), dcb_draw_indirect(m, a), 20),
        takes(arg(a, 0), dcb_cond_exec(m, a), 20),
        takes(arg(a, 0), dcb_draw_index_multi_instanced(m, a), 36),
        takes(arg(a, 0), dcb_copy_data(m, a), 24),
        takes(arg(a, 0), acb_dispatch_indirect(m, a), 16),
        takes(arg(a, 0), dcb_set_base_indirect_args(m, a), 16),
        takes(arg(a, 0), dcb_set_predication(m, a), 16),
        takes(arg(a, 0), dcb_draw_indirect_multi_op(m, a, op), 36),
        takes(arg(a, 0), prime_utcl2(m, a), 20),
        takes(arg(a, 0), cb_branch(m, a), 56),
        takes(arg(a, 0), dcb_set_index_buffer(m, a), 20),
        takes(arg(a, 0), dcb_draw_index_auto(m, a), 28),
        takes(arg(a, 0), dcb_draw_index(m, a), 40),
{
    let cb = arg(a, 0);
    assert(takes(cb, dcb_draw_index(m, a), 40)) by {
        lemma_draw_index_takes(m, a);
    }
    assert forall|words: Seq<u32>| words.len() <= u64::MAX implies takes(
        cb,
        #[trigger] emit(m, cb, words),
        4 * words.len() as int,
    ) by {
        law_packet_takes_its_length(m, cb, words);
    }
}

/// A packet that takes `n` bytes takes at most any larger number.
proof fn lemma_emit_takes_at_most(m: Machine, cb: u64, words: Seq<u32>, bytes: int)
    requires
        4 * words.len() <= bytes,
        words.len() <= 0x10_0000,
    ensures
        takes_at_most(cb, emit(m, cb, words), bytes),
{
    lemma_emit_at(m, cb, words);
}

/// The sizes that leave room to spare are at least what their builders take:
/// those of an index count, an event, and a wait.
pub proof fn law_fixed_sizes_suffice(m: Machine, a: Seq<u64>)
    ensures
        takes_at_most(arg(a, 0), dcb_set_index_count(m, a), 28),
        takes_at_most(arg(a, 0), dcb_event_write(m, a), 16),
        takes_at_most(arg(a, 0), acb_event_write(m, a), 16),
        takes_at_most(arg(a, 0), dcb_wait_reg_mem(m, a), 56),
        takes_at_most(arg(a, 0), acb_wait_reg_mem(m, a), 56),
{
    let cb = arg(a, 0);
    assert forall|words: Seq<u32>, bytes: int|
        4 * words.len() <= bytes && words.len() <= 0x10_0000 implies #[trigger] takes_at_most(
        cb,
        emit(m, cb, words),
        bytes,
    ) by {
        lemma_emit_takes_at_most(m, cb, words, bytes);
    }
}

/// The size query answers, for a packet that was emitted with a header of its
/// own length, that length in DWORDs.
pub proof fn law_packet_size_is_its_length(
    m: Machine,
    cb: u64,
    words: Seq<u32>,
    op: u32,
    reg: u32,
    q: Seq<u64>,
)
    requires
        2 <= words.len() <= 0x4001,
        op <= 0xFF,
        reg <= 0x3F,
        words[0] == header(words.len() as u32, op, reg),
        emit(m, cb, words).1 != 0,
        arg(q, 0) == emit(m, cb, words).1,
    ensures
        get_packet_size(emit(m, cb, words).0, q) == (emit(m, cb, words).0, words.len() as u64),
{
    let after = emit(m, cb, words).0;
    let at = emit(m, cb, words).1 as int;
    let h = words[0];
    law_packet_reads_back(m, cb, words);
    law_header_roundtrip(words.len() as u32, op, reg);
    assert(load_words(after.mem, at, words.len())->0[0] == words[0]);
    assert(load_u32(after.mem, at + 4 * 0)->0 == words[0]);
    assert forall|x: int| at <= x < at + 4 implies #[trigger] after.mem.dom().contains(x) by {
        assert(mapped(after.mem, at, 4 * words.len()));
    }
    assert(h & 0xFFFF_FF00u32 != 0x3FFF_1000u32) by (bit_vector)
        requires
            h >> 30 == 3u32,
    ;
}

/// The size query on a NOP answers the length that was asked for.
pub proof fn law_nop_reports_its_length(m: Machine, a: Seq<u64>, q: Seq<u64>)
    requires
        cb_nop(m, a).1 != 0,
        arg(q, 0) == cb_nop(m, a).1,
    ensures
        2 <= arg(a, 1) <= 0x4001,
        get_packet_size(cb_nop(m, a).0, q).1 == arg(a, 1),
{
    let n = arg(a, 1);
    let words = seq![header(n as u32, IT_NOP, R_ZERO)] + Seq::new((n - 1) as nat, |i: int| 0u32);
    law_packet_size_is_its_length(m, arg(a, 0), words, IT_NOP, R_ZERO, q);
}

/// The size of a NOP is what its builder takes.
pub proof fn law_nop_size_is_exact(m: Machine, a: Seq<u64>, q: Seq<u64>)
    requires
        arg(q, 0) == arg(a, 1),
    ensures
        takes(arg(a, 0), cb_nop(m, a), nop_size(q) as int),
{
    let n = arg(a, 1);
    if 2 <= n <= 0x4001 {
        let words = seq![header(n as u32, IT_NOP, R_ZERO)] + Seq::new((n - 1) as nat, |i: int| 0u32);
        law_packet_takes_its_length(m, arg(a, 0), words);
        assert(n as u32 == n);
    }
}

/// Both payload queries agree: they give the same base, one DWORD behind the
/// packet's start for type zero and two otherwise, and the payload ends where
/// the packet ends. (The longest packet, whose length field is all ones, counts
/// as one without payload.)
pub proof fn law_payload_queries_agree(
    m: Machine,
    a: Seq<u64>,
    b: Seq<u64>,
    len: u32,
    op: u32,
    reg: u32,
)
    requires
        2 <= len <= 0x4000,
        op <= 0xFF,
        reg <= 0x3F,
        arg(a, 1) != 0,
        arg(b, 1) == arg(a, 1),
        lo(arg(b, 2)) == lo(arg(a, 2)),
        load_u32(m.mem, arg(a, 1) as int) == Some(header(len, op, reg)),
        arg(a, 0) != 0,
        arg(b, 0) != 0,
        mapped(m.mem, arg(a, 0) as int, 8),
        mapped(m.mem, arg(b, 0) as int, 16),
        arg(a, 0) + 8 <= arg(a, 1) || arg(a, 1) + 4 <= arg(a, 0),
        arg(a, 0) + 8 <= arg(b, 0) || arg(b, 0) + 16 <= arg(a, 0),
    ensures
        ({
            let command = arg(a, 1);
            let skip: u64 = if lo(arg(a, 2)) == 0 {
                4
            } else {
                8
            };
            let base = command.wrapping_add(skip);
            let size = (4 * len - skip) as u64;
            let (m1, code) = get_data_packet_payload_address(m, a);
            let (m2, code2) = get_data_packet_payload_range(m1, b);
            &&& code == OK
            &&& code2 == OK
            &&& load_u64(m2.mem, arg(a, 0) as int) == Some(base)
            &&& load_u64(m2.mem, arg(b, 0) as int) == Some(base)
            &&& load_u64(m2.mem, arg(b, 0) + 8) == Some(size)
            &&& base.wrapping_add(size) == command.wrapping_add((4 * len) as u64)
        }),
{
    let out = arg(a, 0) as int;
    let range = arg(b, 0) as int;
    let command = arg(a, 1);
    let h = header(len, op, reg);
    let skip: u64 = if lo(arg(a, 2)) == 0 {
        4
    } else {
        8
    };
    let base = command.wrapping_add(skip);
    let size = (4 * len - skip) as u64;
    law_header_roundtrip(len, op, reg);
    assert(((h >> 14) & 0xFFFC) == 4 * ((h >> 16) & 0x3FFF)) by (bit_vector);
    assert(h & 0x3FFF_0000 != 0x3FFF_0000) by (bit_vector)
        requires
            (h >> 16) & 0x3FFF != 0x3FFF,
    ;
    lemma_auto_spec_u64_to_from_le_bytes();
    let m1 = put_u64(m.mem, out, base).0;
    law_put_keeps_mapping(m.mem, out, spec_u64_to_le_bytes(base));
    law_read_back_u64(m.mem, out, base);
    lemma_put_u64_elsewhere(m.mem, out, base, command as int, 4);
    assert forall|x: int| range <= x < range + 16 implies #[trigger] m1.dom().contains(x) by {
        assert(m.mem.dom().contains(x));
    }
    let m2 = put_u64(m1, range, base).0;
    law_put_keeps_mapping(m1, range, spec_u64_to_le_bytes(base));
    law_read_back_u64(m1, range, base);
    lemma_put_u64_elsewhere(m1, range, base, out, 8);
    assert forall|x: int| range <= x < range + 16 implies #[trigger] m2.dom().contains(x) by {
        assert(m1.dom().contains(x));
    }
    law_read_back_u64(m2, range + 8, size);
    lemma_put_u64_elsewhere(m2, range + 8, size, out, 8);
    lemma_put_u64_elsewhere(m2, range + 8, size, range, 8);
}

/// The size of a statistics request suffices for its builder.
pub proof fn law_lod_stats_size_suffices(m: Machine, a: Seq<u64>, q: Seq<u64>)
    ensures
        takes_at_most(arg(a, 0), dcb_get_lod_stats(m, a), lod_stats_size(q) as int),
{
    let cb = arg(a, 0);
    let bytes = lod_stats_size(q) as int;
    assert forall|words: Seq<u32>|
        4 * words.len() <= bytes && words.len() <= 0x10_0000 implies takes_at_most(
        cb,
        #[trigger] emit(m, cb, words),
        bytes,
    ) by {
        lemma_emit_takes_at_most(m, cb, words, bytes);
    }
}

proof fn lemma_copy_takes(m: Machine, cb: u64, head: Seq<u32>, src: u64, n: u64, lenient: bool)
    requires
        head.len() <= 0x1000,
    ensures
        takes(cb, emit_copy(m, cb, head, src, n, lenient), 4 * (head.len() + n)),
{
    let r = emit_copy(m, cb, head, src, n, lenient);
    if cb != 0 && head.len() + n <= u64::MAX {
        let total = (head.len() + n) as u64;
        match allocate(m, cb, total) {
            (m1, Some(at)) => {
                law_allocation_moves_cursor(m, cb, total);
                let (mem_a, ok_a) = write_words(m1.mem, at as int, head);
                if ok_a && clear_of_cursor(cb, at as int, 4 * (head.len() + n)) {
                    lemma_write_words_elsewhere(m1.mem, at as int, head, cb + CB_CURSOR_UP, 8);
                    lemma_copy_words_elsewhere(
                        mem_a,
                        src,
                        at + 4 * head.len(),
                        n as nat,
                        lenient,
                        cb + CB_CURSOR_UP,
                        8,
                    );
                }
            },
            _ => {},
        }
    }
}

/// The size of a data write is what its builder takes.
pub proof fn law_write_data_size_is_exact(m: Machine, a: Seq<u64>, q: Seq<u64>)
    requires
        arg(q, 0) == arg(a, 5),
    ensures
        takes(arg(a, 0), dcb_write_data(m, a), write_data_size(q) as int),
{
    let cb = arg(a, 0);
    assert forall|head: Seq<u32>, src: u64, n: u64, lenient: bool| head.len() <= 0x1000 implies takes(
        cb,
        #[trigger] emit_copy(m, cb, head, src, n, lenient),
        4 * (head.len() + n),
    ) by {
        lemma_copy_takes(m, cb, head, src, n, lenient);
    }
}

/// The size of a UCONFIG register range is what its builder takes.
pub proof fn law_uc_range_size_is_exact(m: Machine, a: Seq<u64>, q: Seq<u64>)
    requires
        arg(q, 0) == arg(a, 3),
    ensures
        takes(arg(a, 0), cb_set_uc_register_range(m, a), uc_register_range_size(q) as int),
{
    let cb = arg(a, 0);
    assert forall|head: Seq<u32>, src: u64, n: u64, lenient: bool| head.len() <= 0x1000 implies takes(
        cb,
        #[trigger] emit_copy(m, cb, head, src, n, lenient),
        4 * (head.len() + n),
    ) by {
        lemma_copy_takes(m, cb, head, src, n, lenient);
    }
    let n = arg(a, 3);
    if n <= 4096 {
        assert(n as u32 == n);
    }
}

/// The size of an SH register range, which counts DWORDs, is what its builder
/// takes from the old cursor on, its marker counted. (A count that does not fit
/// the size's 32-bit argument is left out.)
pub proof fn law_sh_range_size_is_exact(m: Machine, a: Seq<u64>, q: Seq<u64>, up: u64)
    requires
        arg(q, 0) == arg(a, 3),
        arg(a, 3) <= u32::MAX,
        load_u64(m.mem, arg(a, 0) + CB_CURSOR_UP) == Some(up),
        clear_of_cursor(arg(a, 0), up as int, 4 * sh_register_range_dwords(q)),
        cb_set_sh_register_range(m, a).1 != 0,
    ensures
        load_u64(cb_set_sh_register_range(m, a).0.mem, arg(a, 0) + CB_CURSOR_UP) == Some(
            (up + 4 * sh_register_range_dwords(q)) as u64,
        ),
{
    let cb = arg(a, 0);
    let n = arg(a, 3);
    assert(lo(n) == n);
    let marker = seq![header(2, IT_NOP, R_ZERO), SET_SH_RANGE_MARKER];
    lemma_emit_at(m, cb, marker);
    match emit_at(m, cb, marker) {
        (m1, Some(p)) => {
            let head = seq![header((n + 2) as u32, IT_SET_SH_REG, R_ZERO), lo(arg(a, 1))];
            lemma_copy_takes(m1, cb, head, arg(a, 2), n, true);
        },
        _ => {},
    }
}

proof fn lemma_quads_take(
    m: Machine,
    cb: u64,
    head: Seq<u32>,
    q0: u64,
    q1: u64,
    tail: Seq<u32>,
)
    requires
        head.len() + tail.len() <= 0x1000,
    ensures
        takes(
            cb,
            emit_with_quads(m, cb, head, q0, q1, tail),
            4 * (head.len() + 4 + tail.len()) as int,
        ),
{
    let total = (head.len() + 4 + tail.len()) as u64;
    if cb != 0 {
        match allocate(m, cb, total) {
            (m1, Some(at)) => {
                law_allocation_moves_cursor(m, cb, total);
                if clear_of_cursor(cb, at as int, 4 * total) {
                    let x = cb + CB_CURSOR_UP;
                    let (mem_a, ok_a) = write_words(m1.mem, at as int, head);
                    lemma_write_words_elsewhere(m1.mem, at as int, head, x, 8);
                    let (mem_b, ok_b) = put_u64(mem_a, at + 4 * head.len(), q0);
                    lemma_put_u64_elsewhere(mem_a, at + 4 * head.len(), q0, x, 8);
                    let (mem_c, ok_c) = put_u64(mem_b, at + 4 * head.len() + 8, q1);
                    lemma_put_u64_elsewhere(mem_b, at + 4 * head.len() + 8, q1, x, 8);
                    lemma_write_words_elsewhere(mem_c, at + 4 * head.len() + 16, tail, x, 8);
                }
            },
            _ => {},
        }
    }
}

/// The size of a DMA packet is what the graphics builder takes, and more than
/// the compute builder takes.
pub proof fn law_dma_sizes(m: Machine, a: Seq<u64>)
    ensures
        takes(arg(a, 0), dcb_dma_data(m, a), 32),
        takes(arg(a, 0), acb_dma_data(m, a), 28),
{
    let cb = arg(a, 0);
    assert forall|head: Seq<u32>, q0: u64, q1: u64, tail: Seq<u32>|
        head.len() + tail.len() <= 0x1000 implies takes(
        cb,
        #[trigger] emit_with_quads(m, cb, head, q0, q1, tail),
        4 * (head.len() + 4 + tail.len()) as int,
    ) by {
        lemma_quads_take(m, cb, head, q0, q1, tail);
    }
}

/// What a list of runs takes, from its first packet on.
proof fn lemma_runs_take(
    m: Machine,
    cb: u64,
    s: Seq<Register>,
    start: int,
    first: u64,
    op: u32,
    at: u64,
)
    requires
        0 <= start <= s.len() <= 4096,
        first != 0 || start == 0,
        at != 0,
        load_u64(m.mem, cb + CB_CURSOR_UP) == Some(at),
        clear_of_cursor(cb, at as int, 12 * (s.len() - start)),
        emit_runs(m, cb, s, start, first, op).1 != 0,
        first != 0 ==> first <= at,
    ensures
        ({
            let r = emit_runs(m, cb, s, start, first, op);
            &&& load_u64(r.0.mem, cb + CB_CURSOR_UP) is Some
            &&& at <= load_u64(r.0.mem, cb + CB_CURSOR_UP)->0 <= at + 12 * (s.len() - start)
            &&& first != 0 ==> r.1 == first
            &&& first == 0 && start < s.len() ==> r.1 == at
        }),
    decreases s.len() - start,
{
    if start < s.len() {
        lemma_run_end(s, start + 1);
        let end = run_end(s, start + 1);
        let words = run_words(s.subrange(start, end), op);
        lemma_emit_at(m, cb, words);
        match emit_at(m, cb, words) {
            (m1, Some(p)) => {
                assert(p == at);
                assert(clear_of_cursor(cb, p as int, 4 * words.len() as int));
                let next = (at + 4 * words.len()) as u64;
                let first1 = if first == 0 {
                    p
                } else {
                    first
                };
                lemma_runs_take(m1, cb, s, end, first1, op, next);
            },
            _ => {},
        }
    }
}

pub(crate) proof fn lemma_read_registers_len(m: Mem, a: int, n: nat)
    requires
        read_registers(m, a, n) is Some,
    ensures
        read_registers(m, a, n)->0.len() == n,
    decreases n,
{
    if n > 0 {
        lemma_read_registers_len(m, a, (n - 1) as nat);
    }
}

/// The size of a register list suffices for its builder, wherever the offsets
/// lie.
pub proof fn law_registers_direct_size_suffices(m: Machine, a: Seq<u64>, op: u32, q: Seq<u64>)
    requires
        arg(q, 0) == arg(a, 2),
        load_u64(m.mem, arg(a, 0) + CB_CURSOR_UP) != Some(0u64),
    ensures
        takes_at_most(
            arg(a, 0),
            cb_set_registers_direct(m, a, op),
            registers_direct_size(q) as int,
        ),
{
    let cb = arg(a, 0);
    let n = lo(arg(a, 2));
    let r = cb_set_registers_direct(m, a, op);
    if r.1 != 0 && clear_of_cursor(cb, r.1 as int, registers_direct_size(q) as int) {
        let list = read_registers(m.mem, arg(a, 1) as int, n as nat)->0;
        lemma_read_registers_len(m.mem, arg(a, 1) as int, n as nat);
        law_sort_registers(list);
        let s = sort_registers(list);
        lemma_run_end(s, 1);
        let words = run_words(s.subrange(0, run_end(s, 1)), op);
        lemma_emit_at(m, cb, words);
        match load_u64(m.mem, cb + CB_CURSOR_UP) {
            Some(at) => {
                lemma_first_run(m, cb, s, op, at);
                lemma_runs_take(m, cb, s, 0, 0, op, at);
            },
            None => {},
        }
    }
}

/// The result of a list of runs is where the cursor stood, when that is not
/// null.
proof fn lemma_first_run(m: Machine, cb: u64, s: Seq<Register>, op: u32, at: u64)
    requires
        0 < s.len() <= 4096,
        at != 0,
        load_u64(m.mem, cb + CB_CURSOR_UP) == Some(at),
        emit_runs(m, cb, s, 0, 0, op).1 != 0,
    ensures
        emit_runs(m, cb, s, 0, 0, op).1 == at,
{
    lemma_run_end(s, 1);
    let end = run_end(s, 1);
    let words = run_words(s.subrange(0, end), op);
    lemma_emit_at(m, cb, words);
    match emit_at(m, cb, words) {
        (m1, Some(p)) => {
            lemma_runs_keep_first(m1, cb, s, end, p, op);
        },
        _ => {},
    }
}

proof fn lemma_runs_keep_first(
    m: Machine,
    cb: u64,
    s: Seq<Register>,
    start: int,
    first: u64,
    op: u32,
)
    requires
        0 <= start <= s.len(),
        first != 0,
    ensures
        emit_runs(m, cb, s, start, first, op).1 == first || emit_runs(
            m,
            cb,
            s,
            start,
            first,
            op,
        ).1 == 0,
    decreases s.len() - start,
{
    if start < s.len() {
        lemma_run_end(s, start + 1);
        let end = run_end(s, start + 1);
        match emit_at(m, cb, run_words(s.subrange(start, end), op)) {
            (m1, Some(_)) => lemma_runs_keep_first(m1, cb, s, end, first, op),
            _ => {},
        }
    }
}

proof fn lemma_patch(m: Machine, command: u64, off: int, v: u64)
    requires
        off >= 4,
        put_u64(m.mem, command + off, v).1,
    ensures
        load_u64(put_u64(m.mem, command + off, v).0, command + off) == Some(v),
        identity(put_u64(m.mem, command + off, v).0, command) == identity(m.mem, command),
{
    law_read_back_u64(m.mem, command + off, v);
    lemma_put_u64_elsewhere(m.mem, command + off, v, command as int, 4);
}

/// A patched address is the one that the packet then holds, and the packet
/// stays what it was.
pub proof fn law_patched_addresses_read_back(m: Machine, a: Seq<u64>)
    ensures
        ({
            let (after, code) = queue_eop_patch_address(m, a);
            code == OK ==> load_u64(after.mem, arg(a, 0) + 12) == Some(arg(a, 1)) && identity(
                after.mem,
                arg(a, 0),
            ) == identity(m.mem, arg(a, 0))
        }),
        ({
            let (after, code) = write_data_patch_address(m, a);
            code == OK ==> load_u64(after.mem, arg(a, 0) + 8) == Some(arg(a, 1)) && identity(
                after.mem,
                arg(a, 0),
            ) == identity(m.mem, arg(a, 0))
        }),
        ({
            let (after, code) = dma_data_patch_address(m, a);
            code == OK ==> load_u64(after.mem, arg(a, 0) + 16) == Some(arg(a, 1)) && identity(
                after.mem,
                arg(a, 0),
            ) == identity(m.mem, arg(a, 0))
        }),
        ({
            let (after, code) = dma_data_patch_src(m, a);
            code == OK ==> load_u64(after.mem, arg(a, 0) + 24) == Some(arg(a, 1)) && identity(
                after.mem,
                arg(a, 0),
            ) == identity(m.mem, arg(a, 0))
        }),
        ({
            let (after, code) = wait_reg_mem_patch_address(m, a);
            code == OK ==> (load_u64(after.mem, arg(a, 0) + 8) == Some(arg(a, 1)) || load_u64(
                after.mem,
                arg(a, 0) + 4,
            ) == Some(arg(a, 1))) && identity(after.mem, arg(a, 0)) == identity(
                m.mem,
                arg(a, 0),
            )
        }),
{
    let command = arg(a, 0);
    let v = arg(a, 1);
    if put_u64(m.mem, command + 12, v).1 {
        lemma_patch(m, command, 12, v);
    }
    if put_u64(m.mem, command + 8, v).1 {
        lemma_patch(m, command, 8, v);
    }
    if put_u64(m.mem, command + 16, v).1 {
        lemma_patch(m, command, 16, v);
    }
    if put_u64(m.mem, command + 24, v).1 {
        lemma_patch(m, command, 24, v);
    }
    if put_u64(m.mem, command + 4, v).1 {
        lemma_patch(m, command, 4, v);
    }
}

} // verus!
