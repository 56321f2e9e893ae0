//! Command packets and the command-buffer cursor.
//!
//! A command buffer is a guest structure with a write cursor, a limit and a
//! reserved tail. Building a packet reserves DWORDs at the cursor and writes
//! them one after another; the call returns the packet's address, or zero.
use vstd::prelude::*;
use crate::context::{AgcPendingGraphicsSegment, AgcState, HleContext, Machine};
use crate::mem::{load_u32, load_u64, put_u32, put_u64, Mem};

verus! {

/// Write cursor of a command buffer.
pub const CB_CURSOR_UP: u64 = 0x10;

/// End of a command buffer's storage.
pub const CB_CURSOR_DOWN: u64 = 0x18;

/// Number of DWORDs at the end that builders leave alone.
pub const CB_RESERVED_DW: u64 = 0x30;

pub const IT_INDEX_TYPE: u32 = 0x2A;

pub const IT_NOP: u32 = 0x10;

pub const IT_INDEX_BUFFER_SIZE: u32 = 0x13;

pub const IT_INDEX_BASE: u32 = 0x26;

pub const IT_DRAW_INDEX_INDIRECT: u32 = 0x25;

pub const IT_DRAW_INDEX_2: u32 = 0x27;

pub const IT_GET_LOD_STATS: u32 = 0x8E;

pub const IT_DRAW_INDEX_OFFSET_2: u32 = 0x35;

pub const IT_NUM_INSTANCES: u32 = 0x2F;

pub const IT_DISPATCH_DIRECT: u32 = 0x15;

pub const IT_DISPATCH_INDIRECT: u32 = 0x16;

pub const IT_SET_BASE: u32 = 0x11;

pub const IT_EVENT_WRITE: u32 = 0x46;

pub const IT_WAIT_REG_MEM: u32 = 0x3C;

pub const IT_SET_CONTEXT_REG: u32 = 0x69;

pub const IT_SET_SH_REG: u32 = 0x76;

pub const IT_SET_UCONFIG_REG: u32 = 0x79;

pub const IT_COND_EXEC: u32 = 0x22;

pub const IT_SET_PREDICATION: u32 = 0x22;

pub const IT_DRAW_INDIRECT: u32 = 0x24;

pub const IT_DRAW_INDIRECT_MULTI: u32 = 0x2C;

pub const IT_INDIRECT_BUFFER: u32 = 0x3F;

pub const IT_DRAW_INDEX_INDIRECT_MULTI: u32 = 0x38;

pub const IT_COPY_DATA: u32 = 0x40;

pub const IT_DISPATCH_DRAW_PREAMBLE: u32 = 0x3A;

pub const IT_REWIND: u32 = 0x59;

pub const R_ZERO: u32 = 0x00;

pub const R_DRAW_INDEX_AUTO: u32 = 0x04;

pub const R_DRAW_RESET: u32 = 0x05;

pub const R_WAIT_FLIP_DONE: u32 = 0x06;

pub const R_ACB_RESET: u32 = 0x09;

pub const R_WAIT_MEM32: u32 = 0x0A;

pub const R_PUSH_MARKER: u32 = 0x0B;

pub const R_POP_MARKER: u32 = 0x0C;

pub const R_SH_REGS_INDIRECT: u32 = 0x11;

pub const R_CX_REGS_INDIRECT: u32 = 0x12;

pub const R_UC_REGS_INDIRECT: u32 = 0x13;

pub const R_ACQUIRE_MEM: u32 = 0x14;

pub const R_WRITE_DATA: u32 = 0x15;

pub const R_WAIT_MEM64: u32 = 0x16;

pub const R_FLIP: u32 = 0x17;

pub const R_RELEASE_MEM: u32 = 0x18;

pub const R_DMA_DATA: u32 = 0x19;

/// The low half of an address or immediate.
pub open spec fn lo(x: u64) -> u32 {
    x as u32
}

/// The high half of an address or immediate.
pub open spec fn hi(x: u64) -> u32 {
    (x >> 32) as u32
}

/// A packet header: type 3, the total DWORD count less two in bits 16..30, the
/// opcode in bits 8..16 and a 6-bit discriminator in bits 2..8.
pub open spec fn header(len_dwords: u32, op: u32, reg: u32) -> u32 {
    0xC000_0000 | ((len_dwords.wrapping_sub(2) & 0x3FFF) << 16) | ((op & 0xFF) << 8) | ((reg & 0x3F)
        << 2)
}

/// Build a packet header.
pub fn pm4(len_dwords: u32, op: u32, reg: u32) -> (r: u32)
    ensures
        r == header(len_dwords, op, reg),
{
    0xC000_0000 | ((len_dwords.wrapping_sub(2) & 0x3FFF) << 16) | ((op & 0xFF) << 8) | ((reg & 0x3F)
        << 2)
}

/// The opcode in a header.
pub open spec fn header_op(h: u32) -> u32 {
    (h >> 8) & 0xFF
}

/// The discriminator in a header.
pub open spec fn header_reg(h: u32) -> u32 {
    (h >> 2) & 0x3F
}

/// The total DWORD count in a header.
pub open spec fn header_dwords(h: u32) -> int {
    ((h >> 16) & 0x3FFF) + 2
}

/// Total DWORDs of the packet that starts with header `h`.
pub fn pm4_total_dwords(h: u32) -> (r: usize)
    ensures
        r == header_dwords(h),
        2 <= r <= 0x4001,
{
    assert(((h >> 16) & 0x3FFFu32) <= 0x3FFFu32) by (bit_vector);
    (((h >> 16) & 0x3FFF) + 2) as usize
}

/// A header gives back the length, opcode and discriminator it was built from.
pub proof fn law_header_roundtrip(len_dwords: u32, op: u32, reg: u32)
    requires
        2 <= len_dwords <= 0x4001,
        op <= 0xFF,
        reg <= 0x3F,
    ensures
        header_dwords(header(len_dwords, op, reg)) == len_dwords,
        header_op(header(len_dwords, op, reg)) == op,
        header_reg(header(len_dwords, op, reg)) == reg,
        header(len_dwords, op, reg) >> 30 == 3,
{
    let n: u32 = len_dwords.wrapping_sub(2);
    assert(n == len_dwords - 2);
    assert({
        let h = 0xC000_0000u32 | ((n & 0x3FFF) << 16) | ((op & 0xFF) << 8) | ((reg & 0x3F) << 2);
        &&& ((h >> 16) & 0x3FFF) == n
        &&& ((h >> 8) & 0xFF) == op
        &&& ((h >> 2) & 0x3F) == reg
        &&& h >> 30 == 3
    }) by (bit_vector)
        requires
            n <= 0x3FFFu32,
            op <= 0xFFu32,
            reg <= 0x3Fu32,
    ;
}

/// The pending segment after an allocation of `n` DWORDs at `address`: it grows
/// only when the allocation starts inside the tracked window, leaves no gap
/// behind the segment's end, and does not pass the window's end.
pub open spec fn track_allocation(
    s: AgcPendingGraphicsSegment,
    address: u64,
    n: u64,
) -> AgcPendingGraphicsSegment {
    let end = address + n * 4;
    if address != 0 && n != 0 && s.start != 0 && s.range_end != 0 && s.start <= address
        && address < s.range_end && address <= s.end && s.end < end && end <= s.range_end {
        AgcPendingGraphicsSegment { end: end as u64, ..s }
    } else {
        s
    }
}

/// How many DWORDs a buffer has left above its reserved tail.
pub open spec fn remaining_dwords(up: u64, down: u64, reserved: u32) -> int {
    let available = if down >= up {
        (down - up) / 4
    } else {
        0
    };
    if available > reserved {
        available - reserved
    } else {
        0
    }
}

/// Where `n` DWORDs of the buffer at `cb` go, or `None` when the buffer is
/// unreadable or full.
pub open spec fn allocation(m: Mem, cb: u64, n: u64) -> Option<u64> {
    match (
        load_u64(m, cb + CB_CURSOR_UP),
        load_u64(m, cb + CB_CURSOR_DOWN),
        load_u32(m, cb + CB_RESERVED_DW),
    ) {
        (Some(up), Some(down), Some(reserved)) => if n != 0 && n <= remaining_dwords(
            up,
            down,
            reserved,
        ) {
            Some(up)
        } else {
            None
        },
        _ => None,
    }
}

/// Reserve `n` DWORDs at the cursor of the buffer at `cb`: the cursor advances
/// past them and the pending segment may grow. Nothing changes on failure.
pub open spec fn allocate(m: Machine, cb: u64, n: u64) -> (Machine, Option<u64>) {
    match allocation(m.mem, cb, n) {
        Some(at) => {
            let (moved, ok) = m.put_u64(cb + CB_CURSOR_UP, (at + n * 4) as u64);
            if ok {
                (
                    Machine {
                        agc: AgcState { segment: track_allocation(m.agc.segment, at, n), ..m.agc },
                        ..moved
                    },
                    Some(at),
                )
            } else {
                (m, None)
            }
        },
        None => (m, None),
    }
}

/// Extend the pending graphics segment by an allocation.
pub fn track_pending_graphics_allocation(ctx: &mut HleContext, address: u64, size_dwords: u64)
    ensures
        final(ctx)@ == (Machine {
            agc: AgcState {
                segment: track_allocation(old(ctx)@.agc.segment, address, size_dwords),
                ..old(ctx)@.agc
            },
            ..old(ctx)@
        }),
{
    if address == 0 || size_dwords == 0 {
        return;
    }
    let s = ctx.kernel.agc.segment;
    if s.start == 0 || s.range_end == 0 || address < s.start || address >= s.range_end {
        return;
    }
    if address > s.end {
        return;
    }
    if size_dwords > (s.range_end - address) / 4 {
        return;
    }
    let end: u64 = address + size_dwords * 4;
    if end > s.end {
        ctx.kernel.agc.segment.end = end;
    }
}

/// Reserve `size_dwords` from the command buffer at `cb`.
pub fn alloc_command_dwords(ctx: &mut HleContext, cb: u64, size_dwords: u64) -> (r: Option<u64>)
    ensures
        final(ctx)@ == allocate(old(ctx)@, cb, size_dwords).0,
        r == allocate(old(ctx)@, cb, size_dwords).1,
        r is Some ==> r->0 + size_dwords * 4 <= u64::MAX,
{
    if size_dwords == 0 {
        return None;
    }
    let (up, down, reserved) = match (
        ctx.mem.read_u64(cb, CB_CURSOR_UP),
        ctx.mem.read_u64(cb, CB_CURSOR_DOWN),
        ctx.mem.read_u32(cb, CB_RESERVED_DW),
    ) {
        (Some(up), Some(down), Some(reserved)) => (up, down, reserved),
        _ => {
            return None;
        },
    };
    let available: u64 = if down >= up {
        (down - up) / 4
    } else {
        0
    };
    let remaining: u64 = if available > reserved as u64 {
        available - reserved as u64
    } else {
        0
    };
    if size_dwords > remaining {
        return None;
    }
    let next: u64 = up + size_dwords * 4;
    if !ctx.mem.write_u64(cb, CB_CURSOR_UP, next) {
        return None;
    }
    track_pending_graphics_allocation(ctx, up, size_dwords);
    Some(up)
}

/// Memory after writing `words` one after another from `a` on, stopping at the
/// first that does not fit, and whether all were written.
pub open spec fn write_words(m: Mem, a: int, words: Seq<u32>) -> (Mem, bool)
    decreases words.len(),
{
    if words.len() == 0 {
        (m, true)
    } else {
        let (before, ok) = write_words(m, a, words.drop_last());
        if ok {
            put_u32(before, a + 4 * (words.len() - 1), words.last())
        } else {
            (before, false)
        }
    }
}

/// Write `words` at `base + off`.
pub(crate) fn put_words(ctx: &mut HleContext, base: u64, off: u64, words: &[u32]) -> (ok: bool)
    requires
        base + off + 4 * words@.len() <= u64::MAX,
    ensures
        final(ctx)@ == old(ctx)@.with_mem(write_words(old(ctx)@.mem, base + off, words@).0),
        ok == write_words(old(ctx)@.mem, base + off, words@).1,
{
    let mut i: usize = 0;
    let ghost before = ctx@;
    assert(words@.take(0) =~= Seq::<u32>::empty());
    while i < words.len()
        invariant
            i <= words@.len(),
            before == old(ctx)@,
            base + off + 4 * words@.len() <= u64::MAX,
            write_words(before.mem, base + off, words@.take(i as int)) == (ctx@.mem, true),
            ctx@ == before.with_mem(ctx@.mem),
        decreases words@.len() - i,
    {
        proof {
            assert(words@.take(i + 1).drop_last() =~= words@.take(i as int));
            assert(words@.take(i + 1).last() == words@[i as int]);
        }
        if !ctx.mem.write_u32(base, off + 4 * (i as u64), words[i]) {
            proof {
                lemma_write_words_stops(before.mem, base + off, words@, i + 1);
            }
            return false;
        }
        i += 1;
    }
    assert(words@.take(i as int) =~= words@);
    true
}

/// Once a prefix could not be written, the rest is not attempted.
pub proof fn lemma_write_words_stops(m: Mem, a: int, words: Seq<u32>, k: int)
    requires
        0 <= k <= words.len(),
        !write_words(m, a, words.take(k)).1,
    ensures
        write_words(m, a, words) == write_words(m, a, words.take(k)),
    decreases words.len() - k,
{
    if k == words.len() {
        assert(words.take(k) =~= words);
    } else {
        assert(words.take(k + 1).drop_last() =~= words.take(k));
        lemma_write_words_stops(m, a, words, k + 1);
    }
}

/// Build one packet from `words` in the buffer at `cb`: the packet's address,
/// or `None` when the buffer is null, full, unreadable or not writable. Words
/// written before a write failed stay written.
pub open spec fn emit_at(m: Machine, cb: u64, words: Seq<u32>) -> (Machine, Option<u64>) {
    if cb == 0 {
        (m, None)
    } else {
        match allocate(m, cb, words.len() as u64) {
            (m1, Some(at)) => {
                let (mem, ok) = write_words(m1.mem, at as int, words);
                (m1.with_mem(mem), if ok {
                    Some(at)
                } else {
                    None
                })
            },
            (m1, None) => (m1, None),
        }
    }
}

/// A builder's result: an address, with zero for failure.
pub open spec fn or_null(p: (Machine, Option<u64>)) -> (Machine, u64) {
    (p.0, match p.1 {
        Some(at) => at,
        None => 0,
    })
}

/// Build one packet, returning its address or zero.
pub open spec fn emit(m: Machine, cb: u64, words: Seq<u32>) -> (Machine, u64) {
    or_null(emit_at(m, cb, words))
}

/// Build one packet in the buffer at `cb`.
pub fn try_emit(ctx: &mut HleContext, cb: u64, words: &[u32]) -> (r: Option<u64>)
    ensures
        final(ctx)@ == emit_at(old(ctx)@, cb, words@).0,
        r == emit_at(old(ctx)@, cb, words@).1,
{
    if cb == 0 {
        return None;
    }
    match alloc_command_dwords(ctx, cb, words.len() as u64) {
        Some(at) => if put_words(ctx, at, 0, words) {
            Some(at)
        } else {
            None
        },
        None => None,
    }
}

/// Build one packet in the buffer at `cb`; zero on failure.
pub fn emit_packet(ctx: &mut HleContext, cb: u64, words: &[u32]) -> (r: u64)
    ensures
        final(ctx)@ == emit(old(ctx)@, cb, words@).0,
        r == emit(old(ctx)@, cb, words@).1,
{
    match try_emit(ctx, cb, words) {
        Some(at) => at,
        None => 0,
    }
}

/// The low half of `x`.
pub fn lo32(x: u64) -> (r: u32)
    ensures
        r == lo(x),
{
    x as u32
}

/// The high half of `x`.
pub fn hi32(x: u64) -> (r: u32)
    ensures
        r == hi(x),
{
    (x >> 32) as u32
}

} // verus!
