//! `libSceAmpr`: command buffers for asynchronous file reads.
//!
//! A command buffer is a guest structure that names a buffer; records are
//! appended at a cursor kept here. File reads happen when they are recorded. The
//! host reads the file: [`ReadState`] says what is needed next, [`opened`] and
//! [`chunk_read`] take the answers.
pub mod laws;
pub mod names;
pub mod reads;
pub mod records;

use vstd::prelude::*;
use crate::agc::packet::{hi, hi32, lo, lo32};
use crate::context::{
    arg, get_arg, Ampr, AmprGatherScatterState, HleContext, Machine, OK, SCE_ERROR_INVALID_ARGUMENT,
    SCE_ERROR_MEMORY_FAULT, SCE_ERROR_NO_ENTRY, SCE_ERROR_PERMISSION_DENIED,
};
use crate::mem::{
    bytes_of, law_read_back, law_read_elsewhere, load, load_u64, mapped, put, put_u64, store,
    to_bytes, Mem,
};
use crate::registry::{
    returns_value, with_exports, with_incomplete, Export, Handler, HleRegistry, Outcome, Registry,
    Reply,
};
use crate::text::{cstring, read_guest_cstring};

verus! {

pub const CB_SELF_OFFSET: u64 = 0x00;

pub const CB_DATA_OFFSET: u64 = 0x08;

pub const CB_SIZE_OFFSET: u64 = 0x10;

pub const CB_AUX0_OFFSET: u64 = 0x18;

/// The bytes of the two auxiliary slots.
pub const CB_AUX_BYTES: usize = 16;

pub const READ_FILE_RECORD_SIZE: u64 = 0x30;

pub const KERNEL_EVENT_QUEUE_RECORD_SIZE: u64 = 0x30;

pub const WRITE_ADDRESS_RECORD_SIZE: u64 = 0x20;

/// The type of records that completion skips: type, total size, payload.
pub const NOP_RECORD_TYPE: u32 = 4;

pub const NOP_RECORD_HEADER: u64 = 8;

pub const WAIT_RECORD_SIZE: u64 = 0x20;

pub const POP_MARKER_RECORD_SIZE: u64 = 12;

pub const RESET_GATHER_SCATTER_RECORD_SIZE: u64 = 12;

pub const MAP_BEGIN_RECORD_SIZE: u64 = 20;

pub const MAP_DIRECT_BEGIN_RECORD_SIZE: u64 = 24;

pub const MAP_END_RECORD_SIZE: u64 = 12;

/// The largest record, and the most bytes that are read of a message.
pub const COMMAND_BUFFER_SIZE_MAX: u64 = 0x400_0000;

pub const MESSAGE_MAX: usize = 0x400_0000;

/// Map arguments are multiples of this size.
pub const AMM_PAGE_SIZE: u64 = 0x4000;

pub const APR_MAX_READ_LENGTH: u64 = 0x0000_0001_0000_0000;

pub const APR_MAX_FILE_OFFSET: u64 = 0x0000_0100_0000_0000;

pub const APR_MAX_APP_ADDRESS: u64 = 0x0000_F000_0000_0000;

/// The largest file offset that the host can address.
pub const MAX_HOST_OFFSET: u64 = 0x7FFF_FFFF_FFFF_FFFF;

/// The most bytes of a file that are read at once.
pub const READ_CHUNK_BYTES: u64 = 0x10_0000;

pub const APR_TYPE_GATHER_SCATTER_VALID: u32 = 0x0001_0000;

pub const APR_TYPE_MAP_ACTIVE: u32 = 0x0002_0000;

/// The event filter of completion events, as an unsigned half-word.
pub const AMPR_FILTER: u32 = 0xFF9C;

/// The machine with other command-buffer bookkeeping.
pub open spec fn with_ampr(m: Machine, ampr: Ampr) -> Machine {
    Machine { ampr, ..m }
}

/// The value of a map, or zero.
pub open spec fn value_or_zero(map: Map<u64, u64>, k: u64) -> u64 {
    if map.dom().contains(k) {
        map[k]
    } else {
        0
    }
}

/// The type flags of a command buffer; none when it was never flagged.
pub open spec fn flags_of(m: Machine, cb: u64) -> u32 {
    if m.ampr.flags.dom().contains(cb) {
        m.ampr.flags[cb]
    } else {
        0
    }
}

/// Two ranges have no address in common.
pub open spec fn disjoint(a: int, n: int, b: int, e: int) -> bool {
    a + n <= b || e <= a
}

/// Memory after clearing the auxiliary slots of the structure at `cb`. On the
/// calling thread's stack they are left alone: they may belong to the caller.
pub open spec fn clear_aux(m: Machine, cb: u64) -> (Mem, bool) {
    if disjoint(
        cb + CB_AUX0_OFFSET,
        CB_AUX_BYTES as int,
        m.frame.low as int,
        m.frame.high as int,
    ) || m.frame.high <= m.frame.low {
        put(m.mem, cb + CB_AUX0_OFFSET, Seq::new(CB_AUX_BYTES as nat, |i: int| 0u8))
    } else {
        (m.mem, true)
    }
}

/// Write the fields of the structure at `cb` and rewind it: the cursor, the
/// record count and the read continuation start over.
pub open spec fn write_cb(m: Machine, cb: u64, buffer: u64, size: u64) -> (Machine, bool) {
    let (m1, ok1) = put_u64(m.mem, cb + CB_SELF_OFFSET, cb);
    let (m2, ok2) = put_u64(m1, cb + CB_DATA_OFFSET, buffer);
    let (m3, ok3) = put_u64(m2, cb + CB_SIZE_OFFSET, size);
    let (m4, ok4) = clear_aux(m.with_mem(m3), cb);
    if !ok1 {
        (m, false)
    } else if !ok2 {
        (m.with_mem(m1), false)
    } else if !ok3 {
        (m.with_mem(m2), false)
    } else if !ok4 {
        (m.with_mem(m3), false)
    } else {
        (
            with_ampr(
                m.with_mem(m4),
                Ampr {
                    offsets: m.ampr.offsets.insert(cb, 0),
                    counts: m.ampr.counts.insert(cb, 0),
                    streams: m.ampr.streams.remove(cb),
                    ..m.ampr
                },
            ),
            true,
        )
    }
}

fn clear_aux_slots(ctx: &mut HleContext, cb: u64) -> (ok: bool)
    ensures
        final(ctx)@ == old(ctx)@.with_mem(clear_aux(old(ctx)@, cb).0),
        ok == clear_aux(old(ctx)@, cb).1,
{
    let low: u64 = ctx.frame.low;
    let high: u64 = ctx.frame.high;
    let clear = high <= low || cb >= high || (low >= CB_AUX0_OFFSET + CB_AUX_BYTES as u64 && cb <= low
        - CB_AUX0_OFFSET - CB_AUX_BYTES as u64) || cb > u64::MAX - CB_AUX0_OFFSET || cb
        + CB_AUX0_OFFSET >= high;
    if clear {
        let zeros: [u8; 16] = [0u8; 16];
        assert(zeros@ =~= Seq::new(CB_AUX_BYTES as nat, |i: int| 0u8));
        ctx.mem.write(cb, CB_AUX0_OFFSET, &zeros)
    } else {
        true
    }
}

/// Write and rewind the structure at `cb`.
fn write_command_buffer(ctx: &mut HleContext, cb: u64, buffer: u64, size: u64) -> (ok: bool)
    ensures
        final(ctx)@ == write_cb(old(ctx)@, cb, buffer, size).0,
        ok == write_cb(old(ctx)@, cb, buffer, size).1,
{
    if !ctx.mem.write_u64(cb, CB_SELF_OFFSET, cb) {
        return false;
    }
    if !ctx.mem.write_u64(cb, CB_DATA_OFFSET, buffer) {
        return false;
    }
    if !ctx.mem.write_u64(cb, CB_SIZE_OFFSET, size) {
        return false;
    }
    if !clear_aux_slots(ctx, cb) {
        return false;
    }
    ctx.kernel.ampr_write_offsets.insert(cb, 0);
    ctx.kernel.ampr_command_counts.insert(cb, 0);
    let _had: bool = ctx.kernel.ampr_gather_scatter.remove(cb);
    true
}

/// Construct a command buffer over a buffer; the result is the structure. A
/// null structure is left alone.
pub open spec fn ctor(m: Machine, a: Seq<u64>) -> (Machine, u64) {
    let cb = arg(a, 0);
    let (m1, ok) = write_cb(m, cb, arg(a, 1), arg(a, 2));
    if cb == 0 {
        (m, 0)
    } else if !ok {
        (m1, SCE_ERROR_MEMORY_FAULT)
    } else {
        (with_ampr(m1, Ampr { flags: m1.ampr.flags.remove(cb), ..m1.ampr }), cb)
    }
}

/// `sceAmpr{,Apr}CommandBufferConstructor(cb, buffer, size)`.
pub fn hle_ctor(ctx: &mut HleContext, args: &[u64]) -> (r: u64)
    ensures
        final(ctx)@ == ctor(old(ctx)@, args@).0,
        r == ctor(old(ctx)@, args@).1,
{
    let cb: u64 = get_arg(args, 0);
    if cb == 0 {
        return 0;
    }
    if !write_command_buffer(ctx, cb, get_arg(args, 1), get_arg(args, 2)) {
        return SCE_ERROR_MEMORY_FAULT;
    }
    let _had: bool = ctx.kernel.ampr_type_flags.remove(cb);
    cb
}

/// Forget a command buffer.
pub open spec fn dtor(m: Machine, a: Seq<u64>) -> (Machine, u64) {
    let cb = arg(a, 0);
    if cb == 0 {
        (m, 0)
    } else {
        (
            with_ampr(
                m,
                Ampr {
                    offsets: m.ampr.offsets.remove(cb),
                    counts: m.ampr.counts.remove(cb),
                    streams: m.ampr.streams.remove(cb),
                    flags: m.ampr.flags.remove(cb),
                    ..m.ampr
                },
            ),
            0,
        )
    }
}

/// `sceAmpr{,Apr}CommandBufferDestructor(cb)`.
pub fn hle_dtor(ctx: &mut HleContext, args: &[u64]) -> (r: u64)
    ensures
        final(ctx)@ == dtor(old(ctx)@, args@).0,
        r == dtor(old(ctx)@, args@).1,
{
    let cb: u64 = get_arg(args, 0);
    if cb != 0 {
        let _offset: bool = ctx.kernel.ampr_write_offsets.remove(cb);
        let _count: bool = ctx.kernel.ampr_command_counts.remove(cb);
        let _stream: bool = ctx.kernel.ampr_gather_scatter.remove(cb);
        let _flags: bool = ctx.kernel.ampr_type_flags.remove(cb);
    }
    0
}

/// The number of records since construction or reset.
pub open spec fn get_num_commands(m: Machine, a: Seq<u64>) -> (Machine, u64) {
    let cb = arg(a, 0);
    (m, if cb == 0 {
        SCE_ERROR_INVALID_ARGUMENT
    } else if m.ampr.counts.dom().contains(cb) {
        m.ampr.counts[cb]
    } else {
        SCE_ERROR_MEMORY_FAULT
    })
}

/// `sceAmprCommandBufferGetNumCommands(cb)`.
pub fn hle_get_num_commands(ctx: &mut HleContext, args: &[u64]) -> (r: u64)
    ensures
        final(ctx)@ == get_num_commands(old(ctx)@, args@).0,
        r == get_num_commands(old(ctx)@, args@).1,
{
    let cb: u64 = get_arg(args, 0);
    if cb == 0 {
        return SCE_ERROR_INVALID_ARGUMENT;
    }
    match ctx.kernel.ampr_command_counts.get(cb) {
        Some(count) => *count,
        None => SCE_ERROR_MEMORY_FAULT,
    }
}

/// Memory after writing the data and size fields of the structure at `cb`.
pub open spec fn bind(m: Mem, cb: u64, buffer: u64, size: u64) -> (Mem, bool) {
    let (m1, ok) = put_u64(m, cb + CB_DATA_OFFSET, buffer);
    if ok {
        put_u64(m1, cb + CB_SIZE_OFFSET, size)
    } else {
        (m1, false)
    }
}

fn bind_buffer(ctx: &mut HleContext, cb: u64, buffer: u64, size: u64) -> (ok: bool)
    ensures
        final(ctx)@ == old(ctx)@.with_mem(bind(old(ctx)@.mem, cb, buffer, size).0),
        ok == bind(old(ctx)@.mem, cb, buffer, size).1,
{
    if !ctx.mem.write_u64(cb, CB_DATA_OFFSET, buffer) {
        return false;
    }
    ctx.mem.write_u64(cb, CB_SIZE_OFFSET, size)
}

/// Bind another buffer; the cursor stays.
pub open spec fn set_buffer(m: Machine, a: Seq<u64>) -> (Machine, u64) {
    let (mem, ok) = bind(m.mem, arg(a, 0), arg(a, 1), arg(a, 2));
    if arg(a, 0) == 0 {
        (m, SCE_ERROR_INVALID_ARGUMENT)
    } else if ok {
        (m.with_mem(mem), OK)
    } else {
        (m.with_mem(mem), SCE_ERROR_MEMORY_FAULT)
    }
}

/// `sceAmprCommandBufferSetBuffer(cb, buffer, size)`.
pub fn hle_set_buffer(ctx: &mut HleContext, args: &[u64]) -> (r: u64)
    ensures
        final(ctx)@ == set_buffer(old(ctx)@, args@).0,
        r == set_buffer(old(ctx)@, args@).1,
{
    let cb: u64 = get_arg(args, 0);
    if cb == 0 {
        return SCE_ERROR_INVALID_ARGUMENT;
    }
    if bind_buffer(ctx, cb, get_arg(args, 1), get_arg(args, 2)) {
        OK
    } else {
        SCE_ERROR_MEMORY_FAULT
    }
}

/// Rewind a command buffer and keep its buffer.
pub open spec fn reset(m: Machine, a: Seq<u64>) -> (Machine, u64) {
    let cb = arg(a, 0);
    if cb == 0 {
        (m, SCE_ERROR_INVALID_ARGUMENT)
    } else {
        match (load_u64(m.mem, cb + CB_DATA_OFFSET), load_u64(m.mem, cb + CB_SIZE_OFFSET)) {
            (Some(buffer), Some(size)) => {
                let (m1, ok) = write_cb(m, cb, buffer, size);
                (m1, if ok {
                    OK
                } else {
                    SCE_ERROR_MEMORY_FAULT
                })
            },
            _ => (m, SCE_ERROR_MEMORY_FAULT),
        }
    }
}

/// `sceAmprCommandBufferReset(cb)`.
pub fn hle_reset(ctx: &mut HleContext, args: &[u64]) -> (r: u64)
    ensures
        final(ctx)@ == reset(old(ctx)@, args@).0,
        r == reset(old(ctx)@, args@).1,
{
    let cb: u64 = get_arg(args, 0);
    if cb == 0 {
        return SCE_ERROR_INVALID_ARGUMENT;
    }
    match (ctx.mem.read_u64(cb, CB_DATA_OFFSET), ctx.mem.read_u64(cb, CB_SIZE_OFFSET)) {
        (Some(buffer), Some(size)) => if write_command_buffer(ctx, cb, buffer, size) {
            OK
        } else {
            SCE_ERROR_MEMORY_FAULT
        },
        _ => SCE_ERROR_MEMORY_FAULT,
    }
}

/// Unbind the buffer; the result is the buffer that was bound.
pub open spec fn clear_buffer(m: Machine, a: Seq<u64>) -> (Machine, u64) {
    let cb = arg(a, 0);
    if cb == 0 {
        (m, SCE_ERROR_INVALID_ARGUMENT)
    } else {
        match load_u64(m.mem, cb + CB_DATA_OFFSET) {
            None => (m, SCE_ERROR_MEMORY_FAULT),
            Some(buffer) => {
                let (mem, ok) = bind(m.mem, cb, 0, 0);
                (m.with_mem(mem), if ok {
                    buffer
                } else {
                    SCE_ERROR_MEMORY_FAULT
                })
            },
        }
    }
}

/// `sceAmprCommandBufferClearBuffer(cb)`.
pub fn hle_clear_buffer(ctx: &mut HleContext, args: &[u64]) -> (r: u64)
    ensures
        final(ctx)@ == clear_buffer(old(ctx)@, args@).0,
        r == clear_buffer(old(ctx)@, args@).1,
{
    let cb: u64 = get_arg(args, 0);
    if cb == 0 {
        return SCE_ERROR_INVALID_ARGUMENT;
    }
    match ctx.mem.read_u64(cb, CB_DATA_OFFSET) {
        None => SCE_ERROR_MEMORY_FAULT,
        Some(buffer) => if bind_buffer(ctx, cb, 0, 0) {
            buffer
        } else {
            SCE_ERROR_MEMORY_FAULT
        },
    }
}

/// The size of the bound buffer.
pub open spec fn get_size(m: Machine, a: Seq<u64>) -> (Machine, u64) {
    let cb = arg(a, 0);
    (m, if cb == 0 {
        SCE_ERROR_INVALID_ARGUMENT
    } else {
        match load_u64(m.mem, cb + CB_SIZE_OFFSET) {
            Some(size) => size,
            None => SCE_ERROR_MEMORY_FAULT,
        }
    })
}

/// `sceAmprCommandBufferGetSize(cb)`.
pub fn hle_get_size(ctx: &mut HleContext, args: &[u64]) -> (r: u64)
    ensures
        final(ctx)@ == get_size(old(ctx)@, args@).0,
        r == get_size(old(ctx)@, args@).1,
{
    let cb: u64 = get_arg(args, 0);
    if cb == 0 {
        return SCE_ERROR_INVALID_ARGUMENT;
    }
    match ctx.mem.read_u64(cb, CB_SIZE_OFFSET) {
        Some(size) => size,
        None => SCE_ERROR_MEMORY_FAULT,
    }
}

/// The cursor of a command buffer; zero for an unknown one.
pub open spec fn get_current_offset(m: Machine, a: Seq<u64>) -> (Machine, u64) {
    (m, if arg(a, 0) == 0 {
        SCE_ERROR_INVALID_ARGUMENT
    } else {
        value_or_zero(m.ampr.offsets, arg(a, 0))
    })
}

/// `sceAmprCommandBufferGetCurrentOffset(cb)`.
pub fn hle_get_current_offset(ctx: &mut HleContext, args: &[u64]) -> (r: u64)
    ensures
        final(ctx)@ == get_current_offset(old(ctx)@, args@).0,
        r == get_current_offset(old(ctx)@, args@).1,
{
    let cb: u64 = get_arg(args, 0);
    if cb == 0 {
        return SCE_ERROR_INVALID_ARGUMENT;
    }
    current_offset(ctx, cb)
}

/// The type flags of a command buffer.
pub open spec fn get_type_flags(m: Machine, a: Seq<u64>) -> (Machine, u64) {
    (m, if arg(a, 0) == 0 {
        0
    } else {
        flags_of(m, arg(a, 0)) as u64
    })
}

/// `sceAmprCommandBufferGetType(cb)`.
pub fn hle_get_type_flags(ctx: &mut HleContext, args: &[u64]) -> (r: u64)
    ensures
        final(ctx)@ == get_type_flags(old(ctx)@, args@).0,
        r == get_type_flags(old(ctx)@, args@).1,
{
    let cb: u64 = get_arg(args, 0);
    if cb == 0 {
        return 0;
    }
    type_flags(ctx, cb) as u64
}

/// The bound buffer; null when there is no readable structure.
pub open spec fn get_buffer_base_address(m: Machine, a: Seq<u64>) -> (Machine, u64) {
    (m, if arg(a, 0) == 0 {
        0
    } else {
        match load_u64(m.mem, arg(a, 0) + CB_DATA_OFFSET) {
            Some(buffer) => buffer,
            None => 0,
        }
    })
}

/// `sceAmprCommandBufferGetBufferBaseAddress(cb)`.
pub fn hle_get_buffer_base_address(ctx: &mut HleContext, args: &[u64]) -> (r: u64)
    ensures
        final(ctx)@ == get_buffer_base_address(old(ctx)@, args@).0,
        r == get_buffer_base_address(old(ctx)@, args@).1,
{
    let cb: u64 = get_arg(args, 0);
    if cb == 0 {
        return 0;
    }
    match ctx.mem.read_u64(cb, CB_DATA_OFFSET) {
        Some(buffer) => buffer,
        None => 0,
    }
}

fn current_offset(ctx: &HleContext, cb: u64) -> (r: u64)
    ensures
        r == value_or_zero(ctx@.ampr.offsets, cb),
{
    match ctx.kernel.ampr_write_offsets.get(cb) {
        Some(offset) => *offset,
        None => 0,
    }
}

fn type_flags(ctx: &HleContext, cb: u64) -> (r: u32)
    ensures
        r == flags_of(ctx@, cb),
{
    match ctx.kernel.ampr_type_flags.get(cb) {
        Some(flags) => *flags,
        None => 0,
    }
}

/// Append a record at the cursor: it must fit the bound buffer. The cursor and
/// the record count advance; the count is modulo 2^64. Nothing changes on
/// failure.
pub open spec fn append(m: Machine, cb: u64, record: Seq<u8>) -> (Machine, bool) {
    match (load_u64(m.mem, cb + CB_DATA_OFFSET), load_u64(m.mem, cb + CB_SIZE_OFFSET)) {
        (Some(buffer), Some(size)) => {
            let offset = value_or_zero(m.ampr.offsets, cb);
            let (mem, ok) = put(m.mem, buffer + offset, record);
            if buffer == 0 || offset + record.len() > size || !ok {
                (m, false)
            } else {
                (
                    with_ampr(
                        m.with_mem(mem),
                        Ampr {
                            offsets: m.ampr.offsets.insert(cb, (offset + record.len()) as u64),
                            counts: m.ampr.counts.insert(
                                cb,
                                value_or_zero(m.ampr.counts, cb).wrapping_add(1),
                            ),
                            ..m.ampr
                        },
                    ),
                    true,
                )
            }
        },
        _ => (m, false),
    }
}

/// Append a record at the cursor of `cb`.
pub fn append_record(ctx: &mut HleContext, cb: u64, record: &[u8]) -> (ok: bool)
    ensures
        final(ctx)@ == append(old(ctx)@, cb, record@).0,
        ok == append(old(ctx)@, cb, record@).1,
{
    let (buffer, size): (u64, u64) = match (
        ctx.mem.read_u64(cb, CB_DATA_OFFSET),
        ctx.mem.read_u64(cb, CB_SIZE_OFFSET),
    ) {
        (Some(buffer), Some(size)) => (buffer, size),
        _ => {
            return false;
        },
    };
    let offset: u64 = current_offset(ctx, cb);
    let n: u64 = record.len() as u64;
    if buffer == 0 || offset > size || n > size - offset {
        return false;
    }
    if !ctx.mem.write(buffer, offset, record) {
        return false;
    }
    ctx.kernel.ampr_write_offsets.insert(cb, offset + n);
    let count: u64 = match ctx.kernel.ampr_command_counts.get(cb) {
        Some(count) => *count,
        None => 0,
    };
    ctx.kernel.ampr_command_counts.insert(cb, count.wrapping_add(1));
    true
}

/// Success or a memory fault, after appending a record.
pub open spec fn appended(p: (Machine, bool)) -> (Machine, u64) {
    (p.0, if p.1 {
        OK
    } else {
        SCE_ERROR_MEMORY_FAULT
    })
}

fn append_words(ctx: &mut HleContext, cb: u64, words: &[u32]) -> (r: u64)
    ensures
        final(ctx)@ == appended(append(old(ctx)@, cb, bytes_of(words@))).0,
        r == appended(append(old(ctx)@, cb, bytes_of(words@))).1,
{
    let bytes = to_bytes(words);
    if append_record(ctx, cb, bytes.as_slice()) {
        OK
    } else {
        SCE_ERROR_MEMORY_FAULT
    }
}

/// A record of a completion event.
pub open spec fn equeue_record(equeue: u64, ident: u64, user_data: u64) -> Seq<u32> {
    seq![
        2u32,
        AMPR_FILTER,
        lo(equeue),
        hi(equeue),
        lo(ident),
        hi(ident),
        lo(user_data),
        hi(user_data),
        lo(user_data),
        hi(user_data),
        0u32,
        0u32,
    ]
}

/// Record an event that completion fires.
pub open spec fn write_equeue_record(m: Machine, a: Seq<u64>) -> (Machine, u64) {
    if arg(a, 0) == 0 {
        (m, SCE_ERROR_INVALID_ARGUMENT)
    } else {
        appended(
            append(
                m,
                arg(a, 0),
                bytes_of(equeue_record(arg(a, 1), arg(a, 2), arg(a, 3))),
            ),
        )
    }
}

/// `sceAmprCommandBufferWriteKernelEventQueue_04_00(cb, equeue, ident, userData)`.
pub fn hle_write_equeue_record(ctx: &mut HleContext, args: &[u64]) -> (r: u64)
    ensures
        final(ctx)@ == write_equeue_record(old(ctx)@, args@).0,
        r == write_equeue_record(old(ctx)@, args@).1,
{
    let cb: u64 = get_arg(args, 0);
    let equeue: u64 = get_arg(args, 1);
    let ident: u64 = get_arg(args, 2);
    let user_data: u64 = get_arg(args, 3);
    if cb == 0 {
        return SCE_ERROR_INVALID_ARGUMENT;
    }
    append_words(
        ctx,
        cb,
        &[
            2,
            AMPR_FILTER,
            lo32(equeue),
            hi32(equeue),
            lo32(ident),
            hi32(ident),
            lo32(user_data),
            hi32(user_data),
            lo32(user_data),
            hi32(user_data),
            0,
            0,
        ],
    )
}

/// A record of a write that completion performs.
pub open spec fn write_address(address: u64, value: u64) -> Seq<u32> {
    seq![3u32, 0u32, lo(address), hi(address), lo(value), hi(value), 0u32, 0u32]
}

fn append_write_address_record(ctx: &mut HleContext, cb: u64, address: u64, value: u64) -> (r: u64)
    ensures
        final(ctx)@ == appended(
            append(old(ctx)@, cb, bytes_of(write_address(address, value))),
        ).0,
        r == appended(append(old(ctx)@, cb, bytes_of(write_address(address, value)))).1,
{
    append_words(
        ctx,
        cb,
        &[3, 0, lo32(address), hi32(address), lo32(value), hi32(value), 0, 0],
    )
}

/// Record a write that completion performs.
pub open spec fn write_address_record(m: Machine, a: Seq<u64>) -> (Machine, u64) {
    if arg(a, 0) == 0 || arg(a, 1) == 0 {
        (m, SCE_ERROR_INVALID_ARGUMENT)
    } else {
        appended(append(m, arg(a, 0), bytes_of(write_address(arg(a, 1), arg(a, 2)))))
    }
}

/// `sceAmprCommandBufferWriteAddressOnCompletion(cb, address, value)` and
/// `sceAmprCommandBufferWriteAddress_04_00(cb, address, value, flags)`.
pub fn hle_write_address_record(ctx: &mut HleContext, args: &[u64]) -> (r: u64)
    ensures
        final(ctx)@ == write_address_record(old(ctx)@, args@).0,
        r == write_address_record(old(ctx)@, args@).1,
{
    let cb: u64 = get_arg(args, 0);
    let address: u64 = get_arg(args, 1);
    if cb == 0 || address == 0 {
        return SCE_ERROR_INVALID_ARGUMENT;
    }
    append_write_address_record(ctx, cb, address, get_arg(args, 2))
}

/// Record a write of zero: the counters it would read are not kept.
pub open spec fn write_address_from_source(m: Machine, a: Seq<u64>) -> (Machine, u64) {
    if arg(a, 0) == 0 || arg(a, 1) == 0 {
        (m, SCE_ERROR_INVALID_ARGUMENT)
    } else {
        appended(append(m, arg(a, 0), bytes_of(write_address(arg(a, 1), 0))))
    }
}

/// `sceAmprCommandBufferWriteAddressFrom{Counter,CounterPair,TimeCounter}_04_00(cb, address, ..)`.
pub fn hle_write_address_from_source(ctx: &mut HleContext, args: &[u64]) -> (r: u64)
    ensures
        final(ctx)@ == write_address_from_source(old(ctx)@, args@).0,
        r == write_address_from_source(old(ctx)@, args@).1,
{
    let cb: u64 = get_arg(args, 0);
    let address: u64 = get_arg(args, 1);
    if cb == 0 || address == 0 {
        return SCE_ERROR_INVALID_ARGUMENT;
    }
    append_write_address_record(ctx, cb, address, 0)
}

/// `sceAmprCommandBufferWriteAddress_04_00(cb, address, value, flags)`.
pub fn hle_write_address_04_00(ctx: &mut HleContext, args: &[u64]) -> (r: u64)
    ensures
        final(ctx)@ == write_address_record(old(ctx)@, args@).0,
        r == write_address_record(old(ctx)@, args@).1,
{
    hle_write_address_record(ctx, args)
}

/// `n` rounded up to a multiple of four.
pub open spec fn up4(n: int) -> int {
    (n + 3) / 4 * 4
}

/// The size of a skipped record with `payload` bytes.
pub open spec fn skip_size(payload: int) -> int {
    NOP_RECORD_HEADER + up4(payload)
}

/// The size of a skipped record with `payload` bytes.
pub fn nop_record_size(payload: u64) -> (r: u64)
    requires
        skip_size(payload as int) <= u64::MAX,
    ensures
        r == skip_size(payload as int),
{
    NOP_RECORD_HEADER + (payload + 3) / 4 * 4
}

/// A skipped record: type, total size, as much of the payload as fits, zeros.
pub open spec fn skip_record(total: u64, payload: Seq<u8>) -> Seq<u8> {
    bytes_of(seq![NOP_RECORD_TYPE, total as u32]) + Seq::new(
        (total - NOP_RECORD_HEADER) as nat,
        |i: int|
            if i < payload.len() {
                payload[i]
            } else {
                0u8
            },
    )
}

/// Append a skipped record of `total` bytes: a multiple of four, at least the
/// header, at most the largest record.
pub open spec fn append_skip(m: Machine, cb: u64, total: u64, payload: Seq<u8>) -> (Machine, u64) {
    if total < NOP_RECORD_HEADER || total % 4 != 0 || total > COMMAND_BUFFER_SIZE_MAX {
        (m, SCE_ERROR_MEMORY_FAULT)
    } else {
        appended(append(m, cb, skip_record(total, payload)))
    }
}

/// Append a skipped record.
pub fn append_nop_record(ctx: &mut HleContext, cb: u64, total: u64, payload: &[u8]) -> (r: u64)
    ensures
        final(ctx)@ == append_skip(old(ctx)@, cb, total, payload@).0,
        r == append_skip(old(ctx)@, cb, total, payload@).1,
{
    if total < NOP_RECORD_HEADER || total % 4 != 0 || total > COMMAND_BUFFER_SIZE_MAX {
        return SCE_ERROR_MEMORY_FAULT;
    }
    let mut record = to_bytes(&[NOP_RECORD_TYPE, total as u32]);
    let ghost head = record@;
    let n: usize = (total - NOP_RECORD_HEADER) as usize;
    let mut i: usize = 0;
    while i < n
        invariant
            i <= n,
            head.len() == 8,
            record@.len() == 8 + i,
            record@ =~= head + Seq::new(
                i as nat,
                |k: int|
                    if k < payload@.len() {
                        payload@[k]
                    } else {
                        0u8
                    },
            ),
        decreases n - i,
    {
        if i < payload.len() {
            record.push(payload[i]);
        } else {
            record.push(0);
        }
        i += 1;
    }
    assert(record@ =~= skip_record(total, payload@));
    if append_record(ctx, cb, record.as_slice()) {
        OK
    } else {
        SCE_ERROR_MEMORY_FAULT
    }
}

/// Append a skipped record without payload.
fn append_empty(ctx: &mut HleContext, cb: u64, total: u64) -> (r: u64)
    ensures
        final(ctx)@ == append_skip(old(ctx)@, cb, total, Seq::empty()).0,
        r == append_skip(old(ctx)@, cb, total, Seq::empty()).1,
{
    let none: Vec<u8> = Vec::new();
    append_nop_record(ctx, cb, total, none.as_slice())
}

/// The size of a NOP of `n` DWORDs, with zero counted as one.
pub open spec fn nop_size(n: u32) -> int {
    skip_size(if n == 0 {
        4
    } else {
        4 * n
    })
}

proof fn lemma_whole_dwords(n: int)
    ensures
        up4(4 * n) == 4 * n,
{
    assert((4 * n + 3) / 4 == n) by (nonlinear_arith);
}

/// `sceAmprMeasureCommandSizeNop(numDwords)`.
pub fn measure_nop_size(num_u32: u32) -> (r: u64)
    ensures
        r == nop_size(num_u32),
{
    proof {
        lemma_whole_dwords(1);
        lemma_whole_dwords(num_u32 as int);
    }
    if num_u32 == 0 {
        nop_record_size(4)
    } else if num_u32 > 0x4000_0000 {
        NOP_RECORD_HEADER + 4 * (num_u32 as u64)
    } else {
        nop_record_size(4 * (num_u32 as u64))
    }
}

/// The size of a NOP that carries `n` DWORDs of data and their header.
pub open spec fn nop_with_data_size(n: u32) -> int {
    skip_size(4 * (n + 1))
}

/// `sceAmprMeasureCommandSizeNopWithData(numDwords)`.
pub fn nop_with_data_record_size(num_u32: u32) -> (r: u64)
    ensures
        r == nop_with_data_size(num_u32),
{
    proof {
        lemma_whole_dwords(num_u32 + 1);
    }
    NOP_RECORD_HEADER + 4 * (num_u32 as u64 + 1)
}

/// Append 1 to 16 DWORDs of padding.
pub open spec fn nop(m: Machine, a: Seq<u64>) -> (Machine, u64) {
    let n = lo(arg(a, 1));
    if arg(a, 0) == 0 || n == 0 || n > 16 {
        (m, SCE_ERROR_INVALID_ARGUMENT)
    } else {
        append_skip(m, arg(a, 0), nop_size(n) as u64, Seq::empty())
    }
}

/// `sceAmprCommandBufferNop(cb, numDwords)`.
pub fn hle_nop(ctx: &mut HleContext, args: &[u64]) -> (r: u64)
    ensures
        final(ctx)@ == nop(old(ctx)@, args@).0,
        r == nop(old(ctx)@, args@).1,
{
    let cb: u64 = get_arg(args, 0);
    let n: u32 = lo32(get_arg(args, 1));
    if cb == 0 || n == 0 || n > 16 {
        return SCE_ERROR_INVALID_ARGUMENT;
    }
    append_empty(ctx, cb, measure_nop_size(n))
}

/// The data of a NOP: what the pointer shows, or nothing when it is null or
/// unreadable.
pub open spec fn nop_data(m: Mem, data: u64, n: u32) -> Seq<u8> {
    if data == 0 {
        Seq::empty()
    } else {
        match load(m, data as int, (4 * n) as nat) {
            Some(b) => b,
            None => Seq::empty(),
        }
    }
}

/// Append padding that carries up to 15 DWORDs of data.
pub open spec fn nop_with_data(m: Machine, a: Seq<u64>) -> (Machine, u64) {
    let n = lo(arg(a, 1));
    if arg(a, 0) == 0 || n > 15 {
        (m, SCE_ERROR_INVALID_ARGUMENT)
    } else {
        append_skip(
            m,
            arg(a, 0),
            nop_with_data_size(n) as u64,
            nop_data(m.mem, arg(a, 2), n),
        )
    }
}

/// `sceAmprCommandBufferNopWithData(cb, numDwords, data)`.
pub fn hle_nop_with_data(ctx: &mut HleContext, args: &[u64]) -> (r: u64)
    ensures
        final(ctx)@ == nop_with_data(old(ctx)@, args@).0,
        r == nop_with_data(old(ctx)@, args@).1,
{
    let cb: u64 = get_arg(args, 0);
    let n: u32 = lo32(get_arg(args, 1));
    let data: u64 = get_arg(args, 2);
    if cb == 0 || n > 15 {
        return SCE_ERROR_INVALID_ARGUMENT;
    }
    let payload: Vec<u8> = if data == 0 {
        Vec::new()
    } else {
        match ctx.mem.read(data, 0, (4 * n) as usize) {
            Some(b) => b,
            None => Vec::new(),
        }
    };
    append_nop_record(ctx, cb, nop_with_data_record_size(n), payload.as_slice())
}

/// Append padding of the given payload size and its header.
pub open spec fn construct_nop(m: Machine, a: Seq<u64>) -> (Machine, u64) {
    if arg(a, 0) == 0 {
        (m, SCE_ERROR_INVALID_ARGUMENT)
    } else {
        append_skip(m, arg(a, 0), skip_size(4 + lo(arg(a, 3))) as u64, Seq::empty())
    }
}

/// `sceAmprCommandBufferConstructNop(cb, _, _, sizeBytes, _)`.
pub fn hle_construct_nop(ctx: &mut HleContext, args: &[u64]) -> (r: u64)
    ensures
        final(ctx)@ == construct_nop(old(ctx)@, args@).0,
        r == construct_nop(old(ctx)@, args@).1,
{
    let cb: u64 = get_arg(args, 0);
    if cb == 0 {
        return SCE_ERROR_INVALID_ARGUMENT;
    }
    append_empty(ctx, cb, nop_record_size(4 + lo32(get_arg(args, 3)) as u64))
}

/// The text of a marker: empty when the pointer is null or the text is
/// unreadable.
pub open spec fn marker_text(m: Mem, message: u64) -> Seq<u8> {
    if message == 0 {
        Seq::empty()
    } else {
        match cstring(m, message as int, MESSAGE_MAX as nat) {
            Some(s) => s,
            None => Seq::empty(),
        }
    }
}

/// The size of a marker record: a header, longer with a colour, and the text
/// with its terminator.
pub open spec fn marker_size(m: Mem, message: u64, with_color: bool) -> u64 {
    let header: int = if with_color {
        8
    } else {
        4
    };
    let text: int = if message == 0 {
        0
    } else {
        marker_text(m, message).len() as int + 1
    };
    skip_size(header + text) as u64
}

fn read_marker(ctx: &HleContext, message: u64) -> (r: Vec<u8>)
    ensures
        r@ == marker_text(ctx@.mem, message),
        r@.len() <= MESSAGE_MAX,
{
    if message == 0 {
        return Vec::new();
    }
    match read_guest_cstring(&ctx.mem, message, MESSAGE_MAX) {
        Some(s) => s,
        None => Vec::new(),
    }
}

/// The size of a marker record, and its text.
fn marker_record_size_and_text(ctx: &HleContext, message: u64, with_color: bool) -> (r: (
    u64,
    Vec<u8>,
))
    ensures
        r.0 == marker_size(ctx@.mem, message, with_color),
        r.1@ == marker_text(ctx@.mem, message),
{
    let text = read_marker(ctx, message);
    let header: u64 = if with_color {
        8
    } else {
        4
    };
    let n: u64 = if message == 0 {
        0
    } else {
        text.len() as u64 + 1
    };
    (nop_record_size(header + n), text)
}

/// Append a marker.
pub open spec fn append_marker(m: Machine, cb: u64, message: u64, with_color: bool) -> (
    Machine,
    u64,
) {
    if cb == 0 {
        (m, SCE_ERROR_INVALID_ARGUMENT)
    } else {
        append_skip(
            m,
            cb,
            marker_size(m.mem, message, with_color),
            marker_text(m.mem, message),
        )
    }
}

fn append_marker_record(ctx: &mut HleContext, cb: u64, message: u64, with_color: bool) -> (r: u64)
    ensures
        final(ctx)@ == append_marker(old(ctx)@, cb, message, with_color).0,
        r == append_marker(old(ctx)@, cb, message, with_color).1,
{
    if cb == 0 {
        return SCE_ERROR_INVALID_ARGUMENT;
    }
    let (total, text) = marker_record_size_and_text(ctx, message, with_color);
    append_nop_record(ctx, cb, total, text.as_slice())
}

/// `sceAmprCommandBuffer{Set,Push}Marker(cb, message)`.
pub fn hle_marker(ctx: &mut HleContext, args: &[u64]) -> (r: u64)
    ensures
        final(ctx)@ == append_marker(old(ctx)@, arg(args@, 0), arg(args@, 1), false).0,
        r == append_marker(old(ctx)@, arg(args@, 0), arg(args@, 1), false).1,
{
    append_marker_record(ctx, get_arg(args, 0), get_arg(args, 1), false)
}

/// `sceAmprCommandBuffer{Set,Push}MarkerWithColor(cb, message, color)`.
pub fn hle_marker_with_color(ctx: &mut HleContext, args: &[u64]) -> (r: u64)
    ensures
        final(ctx)@ == append_marker(old(ctx)@, arg(args@, 0), arg(args@, 1), true).0,
        r == append_marker(old(ctx)@, arg(args@, 0), arg(args@, 1), true).1,
{
    append_marker_record(ctx, get_arg(args, 0), get_arg(args, 1), true)
}

/// `sceAmprCommandBufferConstructMarker(cb, _, message, color)`: with a colour
/// when the colour pointer is not null.
pub fn hle_construct_marker(ctx: &mut HleContext, args: &[u64]) -> (r: u64)
    ensures
        final(ctx)@ == append_marker(
            old(ctx)@,
            arg(args@, 0),
            arg(args@, 2),
            arg(args@, 3) != 0,
        ).0,
        r == append_marker(old(ctx)@, arg(args@, 0), arg(args@, 2), arg(args@, 3) != 0).1,
{
    append_marker_record(ctx, get_arg(args, 0), get_arg(args, 2), get_arg(args, 3) != 0)
}

/// `sceAmprMeasureCommandSize{Set,Push}Marker(message)`.
pub fn hle_measure_marker(ctx: &HleContext, args: &[u64]) -> (r: u64)
    ensures
        r == marker_size(ctx@.mem, arg(args@, 0), false),
{
    marker_record_size_and_text(ctx, get_arg(args, 0), false).0
}

/// `sceAmprMeasureCommandSize{Set,Push}MarkerWithColor(message, color)`.
pub fn hle_measure_marker_with_color(ctx: &HleContext, args: &[u64]) -> (r: u64)
    ensures
        r == marker_size(ctx@.mem, arg(args@, 0), true),
{
    marker_record_size_and_text(ctx, get_arg(args, 0), true).0
}

/// Append the end of a marker scope.
pub open spec fn pop_marker(m: Machine, a: Seq<u64>) -> (Machine, u64) {
    if arg(a, 0) == 0 {
        (m, SCE_ERROR_INVALID_ARGUMENT)
    } else {
        append_skip(m, arg(a, 0), POP_MARKER_RECORD_SIZE, Seq::empty())
    }
}

/// `sceAmprCommandBufferPopMarker(cb)`.
pub fn hle_pop_marker(ctx: &mut HleContext, args: &[u64]) -> (r: u64)
    ensures
        final(ctx)@ == pop_marker(old(ctx)@, args@).0,
        r == pop_marker(old(ctx)@, args@).1,
{
    let cb: u64 = get_arg(args, 0);
    if cb == 0 {
        return SCE_ERROR_INVALID_ARGUMENT;
    }
    append_empty(ctx, cb, POP_MARKER_RECORD_SIZE)
}

/// Append a wait or counter command, which completion skips.
pub open spec fn wait_or_counter_nop(m: Machine, a: Seq<u64>) -> (Machine, u64) {
    if arg(a, 0) == 0 {
        (m, SCE_ERROR_INVALID_ARGUMENT)
    } else {
        append_skip(m, arg(a, 0), WAIT_RECORD_SIZE, Seq::empty())
    }
}

/// `sceAmprCommandBuffer{WaitOnAddress,WaitOnCounter,WriteCounter}_04_00(cb, ..)`.
pub fn hle_wait_or_counter_nop(ctx: &mut HleContext, args: &[u64]) -> (r: u64)
    ensures
        final(ctx)@ == wait_or_counter_nop(old(ctx)@, args@).0,
        r == wait_or_counter_nop(old(ctx)@, args@).1,
{
    let cb: u64 = get_arg(args, 0);
    if cb == 0 {
        return SCE_ERROR_INVALID_ARGUMENT;
    }
    append_empty(ctx, cb, WAIT_RECORD_SIZE)
}

/// The machine with flags of a command buffer raised and lowered.
pub open spec fn with_flags(m: Machine, cb: u64, set: u32, clear: u32) -> Machine {
    with_ampr(
        m,
        Ampr { flags: m.ampr.flags.insert(cb, (flags_of(m, cb) | set) & !clear), ..m.ampr },
    )
}

fn update_type_flags(ctx: &mut HleContext, cb: u64, set: u32, clear: u32)
    ensures
        final(ctx)@ == with_flags(old(ctx)@, cb, set, clear),
{
    let flags: u32 = type_flags(ctx, cb);
    ctx.kernel.ampr_type_flags.insert(cb, (flags | set) & !clear);
}

/// The flags after a command that succeeded.
pub open spec fn then_flags(p: (Machine, u64), cb: u64, set: u32, clear: u32) -> (Machine, u64) {
    if p.1 == OK {
        (with_flags(p.0, cb, set, clear), OK)
    } else {
        p
    }
}

/// Append the command that ends a read continuation, and end it.
pub open spec fn apr_reset_gather_scatter_state(m: Machine, a: Seq<u64>) -> (Machine, u64) {
    let cb = arg(a, 0);
    if cb == 0 {
        (m, SCE_ERROR_INVALID_ARGUMENT)
    } else {
        let (m1, code) = append_skip(m, cb, RESET_GATHER_SCATTER_RECORD_SIZE, Seq::empty());
        if code == OK {
            (
                with_flags(
                    with_ampr(m1, Ampr { streams: m1.ampr.streams.remove(cb), ..m1.ampr }),
                    cb,
                    0,
                    APR_TYPE_GATHER_SCATTER_VALID,
                ),
                OK,
            )
        } else {
            (m1, code)
        }
    }
}

/// `sceAmprAprCommandBufferResetGatherScatterState(cb, _, _)`.
pub fn hle_apr_reset_gather_scatter_state(ctx: &mut HleContext, args: &[u64]) -> (r: u64)
    ensures
        final(ctx)@ == apr_reset_gather_scatter_state(old(ctx)@, args@).0,
        r == apr_reset_gather_scatter_state(old(ctx)@, args@).1,
{
    let cb: u64 = get_arg(args, 0);
    if cb == 0 {
        return SCE_ERROR_INVALID_ARGUMENT;
    }
    let code: u64 = append_empty(ctx, cb, RESET_GATHER_SCATTER_RECORD_SIZE);
    if code != OK {
        return code;
    }
    let _had: bool = ctx.kernel.ampr_gather_scatter.remove(cb);
    update_type_flags(ctx, cb, 0, APR_TYPE_GATHER_SCATTER_VALID);
    OK
}

/// A mappable window: not null, not empty, page granular, within the address
/// space.
pub open spec fn valid_map(va: u64, size: u64) -> bool {
    va != 0 && size != 0 && va % AMM_PAGE_SIZE == 0 && size % AMM_PAGE_SIZE == 0 && va + size <= u64::MAX
}

/// Whether a window can be mapped.
pub fn is_valid_amm_map_args(va: u64, size: u64) -> (r: bool)
    ensures
        r == valid_map(va, size),
{
    va != 0 && size != 0 && va % AMM_PAGE_SIZE == 0 && size % AMM_PAGE_SIZE == 0 && va <= u64::MAX - size
}

pub open spec fn valid_file_offset(file_offset: u64) -> bool {
    file_offset < APR_MAX_FILE_OFFSET
}

pub open spec fn valid_read_size(size: u64) -> bool {
    size != 0 && size <= APR_MAX_READ_LENGTH
}

/// A destination range that lies below the highest application address.
pub open spec fn valid_read_range(destination: u64, size: u64) -> bool {
    valid_read_size(size) && destination + size <= APR_MAX_APP_ADDRESS
}

pub fn is_valid_apr_file_offset(file_offset: u64) -> (r: bool)
    ensures
        r == valid_file_offset(file_offset),
{
    file_offset < APR_MAX_FILE_OFFSET
}

pub fn is_valid_apr_read_size(size: u64) -> (r: bool)
    ensures
        r == valid_read_size(size),
{
    size != 0 && size <= APR_MAX_READ_LENGTH
}

pub fn is_valid_apr_read_range(destination: u64, size: u64) -> (r: bool)
    ensures
        r == valid_read_range(destination, size),
{
    is_valid_apr_read_size(size) && destination <= APR_MAX_APP_ADDRESS && APR_MAX_APP_ADDRESS
        - destination >= size
}

/// Open a map window; no memory is mapped.
pub open spec fn apr_map_begin(m: Machine, a: Seq<u64>) -> (Machine, u64) {
    if arg(a, 0) == 0 || !valid_map(arg(a, 1), arg(a, 2)) {
        (m, SCE_ERROR_INVALID_ARGUMENT)
    } else {
        then_flags(
            append_skip(m, arg(a, 0), MAP_BEGIN_RECORD_SIZE, Seq::empty()),
            arg(a, 0),
            APR_TYPE_MAP_ACTIVE,
            0,
        )
    }
}

/// `sceAmprAprCommandBufferMapBegin(cb, va, size, type, prot)`.
pub fn hle_apr_map_begin(ctx: &mut HleContext, args: &[u64]) -> (r: u64)
    ensures
        final(ctx)@ == apr_map_begin(old(ctx)@, args@).0,
        r == apr_map_begin(old(ctx)@, args@).1,
{
    let cb: u64 = get_arg(args, 0);
    if cb == 0 || !is_valid_amm_map_args(get_arg(args, 1), get_arg(args, 2)) {
        return SCE_ERROR_INVALID_ARGUMENT;
    }
    let code: u64 = append_empty(ctx, cb, MAP_BEGIN_RECORD_SIZE);
    if code == OK {
        update_type_flags(ctx, cb, APR_TYPE_MAP_ACTIVE, 0);
    }
    code
}

/// Open a map window over direct memory; no memory is mapped.
pub open spec fn apr_map_direct_begin(m: Machine, a: Seq<u64>) -> (Machine, u64) {
    if arg(a, 0) == 0 || !valid_map(arg(a, 1), arg(a, 3)) || arg(a, 2) % AMM_PAGE_SIZE != 0 {
        (m, SCE_ERROR_INVALID_ARGUMENT)
    } else {
        then_flags(
            append_skip(m, arg(a, 0), MAP_DIRECT_BEGIN_RECORD_SIZE, Seq::empty()),
            arg(a, 0),
            APR_TYPE_MAP_ACTIVE,
            0,
        )
    }
}

/// `sceAmprAprCommandBufferMapDirectBegin(cb, va, dmemOffset, size, type, prot)`.
pub fn hle_apr_map_direct_begin(ctx: &mut HleContext, args: &[u64]) -> (r: u64)
    ensures
        final(ctx)@ == apr_map_direct_begin(old(ctx)@, args@).0,
        r == apr_map_direct_begin(old(ctx)@, args@).1,
{
    let cb: u64 = get_arg(args, 0);
    if cb == 0 || !is_valid_amm_map_args(get_arg(args, 1), get_arg(args, 3)) || get_arg(args, 2)
        % AMM_PAGE_SIZE != 0 {
        return SCE_ERROR_INVALID_ARGUMENT;
    }
    let code: u64 = append_empty(ctx, cb, MAP_DIRECT_BEGIN_RECORD_SIZE);
    if code == OK {
        update_type_flags(ctx, cb, APR_TYPE_MAP_ACTIVE, 0);
    }
    code
}

/// Close the open map window; without one the call is not permitted.
pub open spec fn apr_map_end(m: Machine, a: Seq<u64>) -> (Machine, u64) {
    if arg(a, 0) == 0 || flags_of(m, arg(a, 0)) & APR_TYPE_MAP_ACTIVE == 0 {
        (m, SCE_ERROR_PERMISSION_DENIED)
    } else {
        then_flags(
            append_skip(m, arg(a, 0), MAP_END_RECORD_SIZE, Seq::empty()),
            arg(a, 0),
            0,
            APR_TYPE_MAP_ACTIVE,
        )
    }
}

/// `sceAmprAprCommandBufferMapEnd(cb)`.
pub fn hle_apr_map_end(ctx: &mut HleContext, args: &[u64]) -> (r: u64)
    ensures
        final(ctx)@ == apr_map_end(old(ctx)@, args@).0,
        r == apr_map_end(old(ctx)@, args@).1,
{
    let cb: u64 = get_arg(args, 0);
    if cb == 0 || type_flags(ctx, cb) & APR_TYPE_MAP_ACTIVE == 0 {
        return SCE_ERROR_PERMISSION_DENIED;
    }
    let code: u64 = append_empty(ctx, cb, MAP_END_RECORD_SIZE);
    if code == OK {
        update_type_flags(ctx, cb, 0, APR_TYPE_MAP_ACTIVE);
    }
    code
}

/// The size of a gather read.
pub open spec fn read_file_gather_size(a: Seq<u64>) -> u64 {
    if valid_read_size(arg(a, 0)) && valid_file_offset(arg(a, 1)) {
        READ_FILE_RECORD_SIZE
    } else {
        SCE_ERROR_INVALID_ARGUMENT
    }
}

/// `sceAmprMeasureCommandSizeReadFileGather(size, fileOffset)`.
pub fn hle_measure_read_file_gather(args: &[u64]) -> (r: u64)
    ensures
        r == read_file_gather_size(args@),
{
    if is_valid_apr_read_size(get_arg(args, 0)) && is_valid_apr_file_offset(get_arg(args, 1)) {
        READ_FILE_RECORD_SIZE
    } else {
        SCE_ERROR_INVALID_ARGUMENT
    }
}

/// The size of a scatter read.
pub open spec fn read_file_scatter_size(a: Seq<u64>) -> u64 {
    if valid_read_range(arg(a, 0), arg(a, 1)) {
        READ_FILE_RECORD_SIZE
    } else {
        SCE_ERROR_INVALID_ARGUMENT
    }
}

/// `sceAmprMeasureCommandSizeReadFileScatter(destination, size)`.
pub fn hle_measure_read_file_scatter(args: &[u64]) -> (r: u64)
    ensures
        r == read_file_scatter_size(args@),
{
    if is_valid_apr_read_range(get_arg(args, 0), get_arg(args, 1)) {
        READ_FILE_RECORD_SIZE
    } else {
        SCE_ERROR_INVALID_ARGUMENT
    }
}

/// The size of a gather-scatter read.
pub open spec fn read_file_gather_scatter_size(a: Seq<u64>) -> u64 {
    if valid_read_range(arg(a, 0), arg(a, 1)) && valid_file_offset(arg(a, 2)) {
        READ_FILE_RECORD_SIZE
    } else {
        SCE_ERROR_INVALID_ARGUMENT
    }
}

/// `sceAmprMeasureCommandSizeReadFileGatherScatter(destination, size, fileOffset)`.
pub fn hle_measure_read_file_gather_scatter(args: &[u64]) -> (r: u64)
    ensures
        r == read_file_gather_scatter_size(args@),
{
    if is_valid_apr_read_range(get_arg(args, 0), get_arg(args, 1)) && is_valid_apr_file_offset(
        get_arg(args, 2),
    ) {
        READ_FILE_RECORD_SIZE
    } else {
        SCE_ERROR_INVALID_ARGUMENT
    }
}

/// The size of the start of a map window.
pub open spec fn map_begin_size(a: Seq<u64>) -> u64 {
    if valid_map(arg(a, 0), arg(a, 1)) {
        MAP_BEGIN_RECORD_SIZE
    } else {
        SCE_ERROR_INVALID_ARGUMENT
    }
}

/// `sceAmprMeasureCommandSizeMapBegin(va, size, type, prot)`.
pub fn hle_measure_map_begin(args: &[u64]) -> (r: u64)
    ensures
        r == map_begin_size(args@),
{
    if is_valid_amm_map_args(get_arg(args, 0), get_arg(args, 1)) {
        MAP_BEGIN_RECORD_SIZE
    } else {
        SCE_ERROR_INVALID_ARGUMENT
    }
}

/// The size of the start of a direct map window.
pub open spec fn map_direct_begin_size(a: Seq<u64>) -> u64 {
    if valid_map(arg(a, 0), arg(a, 2)) && arg(a, 1) % AMM_PAGE_SIZE == 0 {
        MAP_DIRECT_BEGIN_RECORD_SIZE
    } else {
        SCE_ERROR_INVALID_ARGUMENT
    }
}

/// `sceAmprMeasureCommandSizeMapDirectBegin(va, dmemOffset, size, type, prot)`.
pub fn hle_measure_map_direct_begin(args: &[u64]) -> (r: u64)
    ensures
        r == map_direct_begin_size(args@),
{
    if is_valid_amm_map_args(get_arg(args, 0), get_arg(args, 2)) && get_arg(args, 1) % AMM_PAGE_SIZE == 0 {
        MAP_DIRECT_BEGIN_RECORD_SIZE
    } else {
        SCE_ERROR_INVALID_ARGUMENT
    }
}

/// Why the host could not open or read a file.
#[derive(Clone, Copy, PartialEq, Eq, Structural, Debug)]
pub enum HostError {
    PermissionDenied,
    Other,
}

/// The error that a host failure is reported as.
pub open spec fn host_error(e: HostError) -> u64 {
    match e {
        HostError::PermissionDenied => SCE_ERROR_PERMISSION_DENIED,
        HostError::Other => SCE_ERROR_NO_ENTRY,
    }
}

/// Map a host failure to the guest's error.
pub fn apr_io_error(e: HostError) -> (r: u64)
    ensures
        r == host_error(e),
{
    match e {
        HostError::PermissionDenied => SCE_ERROR_PERMISSION_DENIED,
        HostError::Other => SCE_ERROR_NO_ENTRY,
    }
}

/// A read that is being recorded.
#[derive(Clone, Copy)]
pub struct ReadJob {
    pub cb: u64,
    pub file_id: u32,
    pub destination: u64,
    pub size: u64,
    pub file_offset: u64,
}

/// What a read needs next from the host.
#[derive(Clone, Copy)]
pub enum ReadState {
    /// Open the file of the job, or use its open handle, and tell its length.
    Open { job: ReadJob },
    /// Read up to `want` bytes at `offset`.
    Chunk { job: ReadJob, done: u64, offset: u64, want: u64 },
    /// The call returns this code.
    Done { code: u64 },
}

/// The record of a read: what was asked for, and how many bytes came.
pub open spec fn read_record(job: ReadJob, bytes_read: u64) -> Seq<u32> {
    seq![
        1u32,
        job.file_id,
        lo(job.destination),
        hi(job.destination),
        lo(job.size),
        hi(job.size),
        lo(job.file_offset),
        hi(job.file_offset),
        lo(bytes_read),
        hi(bytes_read),
        0u32,
        0u32,
    ]
}

/// Where the next gather or scatter read goes on: behind what was asked for,
/// modulo 2^64.
pub open spec fn continuation(job: ReadJob) -> AmprGatherScatterState {
    AmprGatherScatterState {
        file_id: job.file_id,
        next_destination: job.destination.wrapping_add(job.size),
        next_file_offset: job.file_offset.wrapping_add(job.size),
    }
}

/// The end of a read: append its record and keep the continuation.
pub open spec fn finish_read(m: Machine, job: ReadJob, bytes_read: u64) -> (Machine, ReadState) {
    let (m1, ok) = append(m, job.cb, bytes_of(read_record(job, bytes_read)));
    if !ok {
        (m1, ReadState::Done { code: SCE_ERROR_MEMORY_FAULT })
    } else {
        (
            with_flags(
                with_ampr(
                    m1,
                    Ampr {
                        streams: m1.ampr.streams.insert(job.cb, continuation(job)),
                        ..m1.ampr
                    },
                ),
                job.cb,
                APR_TYPE_GATHER_SCATTER_VALID,
                0,
            ),
            ReadState::Done { code: OK },
        )
    }
}

fn finish_read_run(ctx: &mut HleContext, job: ReadJob, bytes_read: u64) -> (r: ReadState)
    ensures
        final(ctx)@ == finish_read(old(ctx)@, job, bytes_read).0,
        r == finish_read(old(ctx)@, job, bytes_read).1,
{
    let code: u64 = append_words(
        ctx,
        job.cb,
        &[
            1,
            job.file_id,
            lo32(job.destination),
            hi32(job.destination),
            lo32(job.size),
            hi32(job.size),
            lo32(job.file_offset),
            hi32(job.file_offset),
            lo32(bytes_read),
            hi32(bytes_read),
            0,
            0,
        ],
    );
    if code != OK {
        return ReadState::Done { code: SCE_ERROR_MEMORY_FAULT };
    }
    ctx.kernel.ampr_gather_scatter.insert(
        job.cb,
        AmprGatherScatterState {
            file_id: job.file_id,
            next_destination: job.destination.wrapping_add(job.size),
            next_file_offset: job.file_offset.wrapping_add(job.size),
        },
    );
    update_type_flags(ctx, job.cb, APR_TYPE_GATHER_SCATTER_VALID, 0);
    ReadState::Done { code: OK }
}

/// Start a read. A file that was never registered is not found, and is noted
/// once; an empty read needs no file; an offset that the host cannot address is
/// refused.
pub open spec fn start_read(m: Machine, job: ReadJob) -> (Machine, ReadState) {
    if !m.ampr.files.dom().contains(job.file_id as u64) {
        (
            with_ampr(
                m,
                Ampr { missing: m.ampr.missing.insert(job.file_id as u64, 0), ..m.ampr },
            ),
            ReadState::Done { code: SCE_ERROR_NO_ENTRY },
        )
    } else if job.size == 0 {
        finish_read(m, job, 0)
    } else if job.file_offset > MAX_HOST_OFFSET {
        (m, ReadState::Done { code: SCE_ERROR_INVALID_ARGUMENT })
    } else {
        (m, ReadState::Open { job })
    }
}

/// Start a read.
pub fn apr_read_and_append(ctx: &mut HleContext, job: ReadJob) -> (r: ReadState)
    ensures
        final(ctx)@ == start_read(old(ctx)@, job).0,
        r == start_read(old(ctx)@, job).1,
{
    if !ctx.kernel.appr_files.contains(job.file_id as u64) {
        ctx.kernel.appr_missing_warned.insert(job.file_id as u64, 0);
        return ReadState::Done { code: SCE_ERROR_NO_ENTRY };
    }
    if job.size == 0 {
        return finish_read_run(ctx, job, 0);
    }
    if job.file_offset > MAX_HOST_OFFSET {
        return ReadState::Done { code: SCE_ERROR_INVALID_ARGUMENT };
    }
    ReadState::Open { job }
}

/// What to read after `done` bytes: the next chunk, or nothing more.
pub open spec fn next_chunk(m: Machine, job: ReadJob, done: u64) -> (Machine, ReadState) {
    if done >= job.size {
        finish_read(m, job, done)
    } else if job.file_offset + done > MAX_HOST_OFFSET {
        (m, ReadState::Done { code: SCE_ERROR_INVALID_ARGUMENT })
    } else {
        (
            m,
            ReadState::Chunk {
                job,
                done,
                offset: (job.file_offset + done) as u64,
                want: if job.size - done < READ_CHUNK_BYTES {
                    (job.size - done) as u64
                } else {
                    READ_CHUNK_BYTES
                },
            },
        )
    }
}

fn next_chunk_run(ctx: &mut HleContext, job: ReadJob, done: u64) -> (r: ReadState)
    ensures
        final(ctx)@ == next_chunk(old(ctx)@, job, done).0,
        r == next_chunk(old(ctx)@, job, done).1,
{
    if done >= job.size {
        return finish_read_run(ctx, job, done);
    }
    if job.file_offset > MAX_HOST_OFFSET || done > MAX_HOST_OFFSET - job.file_offset {
        return ReadState::Done { code: SCE_ERROR_INVALID_ARGUMENT };
    }
    let left: u64 = job.size - done;
    ReadState::Chunk {
        job,
        done,
        offset: job.file_offset + done,
        want: if left < READ_CHUNK_BYTES {
            left
        } else {
            READ_CHUNK_BYTES
        },
    }
}

/// The step from [`ReadState::Open`]: an offset at or behind the end reads
/// nothing.
pub open spec fn open_step(m: Machine, s: ReadState, length: Result<u64, HostError>) -> (
    Machine,
    ReadState,
) {
    match s {
        ReadState::Open { job } => match length {
            Err(e) => (m, ReadState::Done { code: host_error(e) }),
            Ok(n) => if job.file_offset >= n {
                finish_read(m, job, 0)
            } else {
                next_chunk(m, job, 0)
            },
        },
        _ => (m, s),
    }
}

/// Take the length of the opened file, and go on with the read. Other states
/// stay as they are.
pub fn opened(ctx: &mut HleContext, state: ReadState, length: Result<u64, HostError>) -> (r:
    ReadState)
    ensures
        final(ctx)@ == open_step(old(ctx)@, state, length).0,
        r == open_step(old(ctx)@, state, length).1,
{
    match state {
        ReadState::Open { job } => match length {
            Err(e) => ReadState::Done { code: apr_io_error(e) },
            Ok(n) => if job.file_offset >= n {
                finish_read_run(ctx, job, 0)
            } else {
                next_chunk_run(ctx, job, 0)
            },
        },
        _ => state,
    }
}

/// The data that counts: no more than was asked for.
pub open spec fn wanted(data: Seq<u8>, want: u64) -> Seq<u8> {
    if data.len() <= want {
        data
    } else {
        data.take(want as int)
    }
}

/// The step from [`ReadState::Chunk`]: the data goes to guest memory, and no
/// data is the end of the file.
pub open spec fn chunk_step(m: Machine, s: ReadState, data: Result<Seq<u8>, HostError>) -> (
    Machine,
    ReadState,
) {
    match s {
        ReadState::Chunk { job, done, offset, want } => match data {
            Err(e) => (m, ReadState::Done { code: host_error(e) }),
            Ok(bytes) => {
                let b = wanted(bytes, want);
                let (mem, ok) = put(m.mem, job.destination + done, b);
                if b.len() == 0 {
                    finish_read(m, job, done)
                } else if !ok || done + b.len() > u64::MAX {
                    (m, ReadState::Done { code: SCE_ERROR_MEMORY_FAULT })
                } else {
                    next_chunk(m.with_mem(mem), job, (done + b.len()) as u64)
                }
            },
        },
        _ => (m, s),
    }
}

/// The view of a host answer.
pub open spec fn data_view(data: Result<Vec<u8>, HostError>) -> Result<Seq<u8>, HostError> {
    match data {
        Ok(v) => Ok(v@),
        Err(e) => Err(e),
    }
}

/// Take the data of a chunk, and go on with the read. Other states stay as they
/// are.
pub fn chunk_read(ctx: &mut HleContext, state: ReadState, data: Result<Vec<u8>, HostError>) -> (r:
    ReadState)
    ensures
        final(ctx)@ == chunk_step(old(ctx)@, state, data_view(data)).0,
        r == chunk_step(old(ctx)@, state, data_view(data)).1,
{
    match state {
        ReadState::Chunk { job, done, offset: _, want } => match data {
            Err(e) => ReadState::Done { code: apr_io_error(e) },
            Ok(bytes) => {
                let ghost all = bytes@;
                let mut b = bytes;
                if b.len() as u64 > want {
                    b.truncate(want as usize);
                    assert(b@ =~= all.take(want as int));
                }
                let n: u64 = b.len() as u64;
                if n == 0 {
                    return finish_read_run(ctx, job, done);
                }
                if n > u64::MAX - done {
                    return ReadState::Done { code: SCE_ERROR_MEMORY_FAULT };
                }
                if !ctx.mem.write(job.destination, done, b.as_slice()) {
                    return ReadState::Done { code: SCE_ERROR_MEMORY_FAULT };
                }
                next_chunk_run(ctx, job, done + n)
            },
        },
        _ => state,
    }
}

/// A read with everything given.
pub open spec fn apr_read_file(m: Machine, a: Seq<u64>) -> (Machine, ReadState) {
    if arg(a, 0) == 0 || (arg(a, 4) == 0 && arg(a, 5) != 0) {
        (m, ReadState::Done { code: SCE_ERROR_INVALID_ARGUMENT })
    } else {
        start_read(
            m,
            ReadJob {
                cb: arg(a, 0),
                file_id: lo(arg(a, 3)),
                destination: arg(a, 4),
                size: arg(a, 5),
                file_offset: arg(a, 6),
            },
        )
    }
}

/// `sceAmprAprCommandBufferReadFile(cb, _, _, fileId, destination, size,
/// fileOffset)`.
pub fn hle_apr_read_file(ctx: &mut HleContext, args: &[u64]) -> (r: ReadState)
    ensures
        final(ctx)@ == apr_read_file(old(ctx)@, args@).0,
        r == apr_read_file(old(ctx)@, args@).1,
{
    let cb: u64 = get_arg(args, 0);
    let destination: u64 = get_arg(args, 4);
    let size: u64 = get_arg(args, 5);
    if cb == 0 || (destination == 0 && size != 0) {
        return ReadState::Done { code: SCE_ERROR_INVALID_ARGUMENT };
    }
    apr_read_and_append(
        ctx,
        ReadJob {
            cb,
            file_id: lo32(get_arg(args, 3)),
            destination,
            size,
            file_offset: get_arg(args, 6),
        },
    )
}

/// The continuation of a command buffer.
pub open spec fn stream_of(m: Machine, cb: u64) -> Option<AmprGatherScatterState> {
    if m.ampr.streams.dom().contains(cb) {
        Some(m.ampr.streams[cb])
    } else {
        None
    }
}

fn find_stream(ctx: &HleContext, cb: u64) -> (r: Option<AmprGatherScatterState>)
    ensures
        r == stream_of(ctx@, cb),
{
    match ctx.kernel.ampr_gather_scatter.get(cb) {
        Some(s) => Some(*s),
        None => None,
    }
}

/// A refused read.
pub open spec fn refused_read(m: Machine) -> (Machine, ReadState) {
    (m, ReadState::Done { code: SCE_ERROR_INVALID_ARGUMENT })
}

/// A read from a new file offset to where the last read stopped.
pub open spec fn apr_read_file_gather(m: Machine, a: Seq<u64>) -> (Machine, ReadState) {
    let size = arg(a, 3);
    let file_offset = arg(a, 4);
    if arg(a, 0) == 0 || !valid_read_size(size) || !valid_file_offset(file_offset) {
        refused_read(m)
    } else {
        match stream_of(m, arg(a, 0)) {
            None => refused_read(m),
            Some(s) => if !valid_read_range(s.next_destination, size) {
                refused_read(m)
            } else {
                start_read(
                    m,
                    ReadJob {
                        cb: arg(a, 0),
                        file_id: s.file_id,
                        destination: s.next_destination,
                        size,
                        file_offset,
                    },
                )
            },
        }
    }
}

/// `sceAmprAprCommandBufferReadFileGather(cb, _, _, size, fileOffset)`.
pub fn hle_apr_read_file_gather(ctx: &mut HleContext, args: &[u64]) -> (r: ReadState)
    ensures
        final(ctx)@ == apr_read_file_gather(old(ctx)@, args@).0,
        r == apr_read_file_gather(old(ctx)@, args@).1,
{
    let cb: u64 = get_arg(args, 0);
    let size: u64 = get_arg(args, 3);
    let file_offset: u64 = get_arg(args, 4);
    if cb == 0 || !is_valid_apr_read_size(size) || !is_valid_apr_file_offset(file_offset) {
        return ReadState::Done { code: SCE_ERROR_INVALID_ARGUMENT };
    }
    match find_stream(ctx, cb) {
        None => ReadState::Done { code: SCE_ERROR_INVALID_ARGUMENT },
        Some(s) => {
            if !is_valid_apr_read_range(s.next_destination, size) {
                return ReadState::Done { code: SCE_ERROR_INVALID_ARGUMENT };
            }
            apr_read_and_append(
                ctx,
                ReadJob {
                    cb,
                    file_id: s.file_id,
                    destination: s.next_destination,
                    size,
                    file_offset,
                },
            )
        },
    }
}

/// A read to a new destination from where the last read stopped.
pub open spec fn apr_read_file_scatter(m: Machine, a: Seq<u64>) -> (Machine, ReadState) {
    if arg(a, 0) == 0 || !valid_read_range(arg(a, 3), arg(a, 4)) {
        refused_read(m)
    } else {
        match stream_of(m, arg(a, 0)) {
            None => refused_read(m),
            Some(s) => if !valid_file_offset(s.next_file_offset) {
                refused_read(m)
            } else {
                start_read(
                    m,
                    ReadJob {
                        cb: arg(a, 0),
                        file_id: s.file_id,
                        destination: arg(a, 3),
                        size: arg(a, 4),
                        file_offset: s.next_file_offset,
                    },
                )
            },
        }
    }
}

/// `sceAmprAprCommandBufferReadFileScatter(cb, _, _, destination, size)`.
pub fn hle_apr_read_file_scatter(ctx: &mut HleContext, args: &[u64]) -> (r: ReadState)
    ensures
        final(ctx)@ == apr_read_file_scatter(old(ctx)@, args@).0,
        r == apr_read_file_scatter(old(ctx)@, args@).1,
{
    let cb: u64 = get_arg(args, 0);
    let destination: u64 = get_arg(args, 3);
    let size: u64 = get_arg(args, 4);
    if cb == 0 || !is_valid_apr_read_range(destination, size) {
        return ReadState::Done { code: SCE_ERROR_INVALID_ARGUMENT };
    }
    match find_stream(ctx, cb) {
        None => ReadState::Done { code: SCE_ERROR_INVALID_ARGUMENT },
        Some(s) => {
            if !is_valid_apr_file_offset(s.next_file_offset) {
                return ReadState::Done { code: SCE_ERROR_INVALID_ARGUMENT };
            }
            apr_read_and_append(
                ctx,
                ReadJob {
                    cb,
                    file_id: s.file_id,
                    destination,
                    size,
                    file_offset: s.next_file_offset,
                },
            )
        },
    }
}

/// A read from a new file offset to a new destination, of the same file.
pub open spec fn apr_read_file_gather_scatter(m: Machine, a: Seq<u64>) -> (Machine, ReadState) {
    if arg(a, 0) == 0 || !valid_read_range(arg(a, 3), arg(a, 4)) || !valid_file_offset(
        arg(a, 5),
    ) {
        refused_read(m)
    } else {
        match stream_of(m, arg(a, 0)) {
            None => refused_read(m),
            Some(s) => start_read(
                m,
                ReadJob {
                    cb: arg(a, 0),
                    file_id: s.file_id,
                    destination: arg(a, 3),
                    size: arg(a, 4),
                    file_offset: arg(a, 5),
                },
            ),
        }
    }
}

/// `sceAmprAprCommandBufferReadFileGatherScatter(cb, _, _, destination, size,
/// fileOffset)`.
pub fn hle_apr_read_file_gather_scatter(ctx: &mut HleContext, args: &[u64]) -> (r: ReadState)
    ensures
        final(ctx)@ == apr_read_file_gather_scatter(old(ctx)@, args@).0,
        r == apr_read_file_gather_scatter(old(ctx)@, args@).1,
{
    let cb: u64 = get_arg(args, 0);
    let destination: u64 = get_arg(args, 3);
    let size: u64 = get_arg(args, 4);
    let file_offset: u64 = get_arg(args, 5);
    if cb == 0 || !is_valid_apr_read_range(destination, size) || !is_valid_apr_file_offset(
        file_offset,
    ) {
        return ReadState::Done { code: SCE_ERROR_INVALID_ARGUMENT };
    }
    match find_stream(ctx, cb) {
        None => ReadState::Done { code: SCE_ERROR_INVALID_ARGUMENT },
        Some(s) => apr_read_and_append(
            ctx,
            ReadJob { cb, file_id: s.file_id, destination, size, file_offset },
        ),
    }
}

/// A record that was appended takes its own length from the buffer and counts
/// as one command; a record that was refused changes nothing.
pub proof fn law_record_advances(m: Machine, cb: u64, record: Seq<u8>)
    ensures
        ({
            let (after, ok) = append(m, cb, record);
            if ok {
                &&& value_or_zero(after.ampr.offsets, cb) == value_or_zero(m.ampr.offsets, cb)
                    + record.len()
                &&& value_or_zero(after.ampr.counts, cb) == value_or_zero(
                    m.ampr.counts,
                    cb,
                ).wrapping_add(1)
            } else {
                after == m
            }
        }),
{
}

/// A record that was appended stands behind the earlier ones, at the old offset
/// of the buffer, and the rest of memory is as it was.
pub proof fn law_record_reads_back(m: Machine, cb: u64, record: Seq<u8>)
    requires
        append(m, cb, record).1,
    ensures
        ({
            let after = append(m, cb, record).0.mem;
            let at = load_u64(m.mem, cb + CB_DATA_OFFSET)->0 + value_or_zero(m.ampr.offsets, cb);
            &&& load(after, at, record.len()) == Some(record)
            &&& forall|x: int, n: nat|
                x + n <= at || at + record.len() <= x ==> #[trigger] load(after, x, n) == load(
                    m.mem,
                    x,
                    n,
                )
        }),
{
    let after = append(m, cb, record).0.mem;
    let at = load_u64(m.mem, cb + CB_DATA_OFFSET)->0 + value_or_zero(m.ampr.offsets, cb);
    law_read_back(m.mem, at, record);
    assert forall|x: int, n: nat| x + n <= at || at + record.len() <= x implies #[trigger] load(
        after,
        x,
        n,
    ) == load(m.mem, x, n) by {
        law_read_elsewhere(m.mem, at, record, x, n);
    }
}

/// The cursor of `cb` moved by exactly `n`.
pub open spec fn advanced(m: Machine, r: (Machine, u64), cb: u64, n: int) -> bool {
    r.1 == OK ==> value_or_zero(r.0.ampr.offsets, cb) == value_or_zero(m.ampr.offsets, cb) + n
}

pub(crate) proof fn lemma_skip_advances(m: Machine, cb: u64, total: u64, payload: Seq<u8>)
    ensures
        advanced(m, append_skip(m, cb, total, payload), cb, total as int),
{
    if NOP_RECORD_HEADER <= total <= COMMAND_BUFFER_SIZE_MAX {
        law_record_advances(m, cb, skip_record(total, payload));
    }
}

/// Every measured size is what the writer of the same command takes from the
/// buffer.
pub proof fn law_measures_match_writers(m: Machine, a: Seq<u64>)
    ensures
        advanced(m, nop(m, a), arg(a, 0), nop_size(lo(arg(a, 1)))),
        advanced(m, nop_with_data(m, a), arg(a, 0), nop_with_data_size(lo(arg(a, 1)))),
        advanced(
            m,
            append_marker(m, arg(a, 0), arg(a, 1), false),
            arg(a, 0),
            marker_size(m.mem, arg(a, 1), false) as int,
        ),
        advanced(
            m,
            append_marker(m, arg(a, 0), arg(a, 1), true),
            arg(a, 0),
            marker_size(m.mem, arg(a, 1), true) as int,
        ),
        advanced(m, pop_marker(m, a), arg(a, 0), POP_MARKER_RECORD_SIZE as int),
        advanced(m, wait_or_counter_nop(m, a), arg(a, 0), WAIT_RECORD_SIZE as int),
        advanced(m, write_address_record(m, a), arg(a, 0), WRITE_ADDRESS_RECORD_SIZE as int),
        advanced(m, write_address_from_source(m, a), arg(a, 0), WRITE_ADDRESS_RECORD_SIZE as int),
        advanced(m, write_equeue_record(m, a), arg(a, 0), KERNEL_EVENT_QUEUE_RECORD_SIZE as int),
        advanced(
            m,
            apr_reset_gather_scatter_state(m, a),
            arg(a, 0),
            RESET_GATHER_SCATTER_RECORD_SIZE as int,
        ),
        advanced(m, apr_map_begin(m, a), arg(a, 0), MAP_BEGIN_RECORD_SIZE as int),
        advanced(m, apr_map_direct_begin(m, a), arg(a, 0), MAP_DIRECT_BEGIN_RECORD_SIZE as int),
        advanced(m, apr_map_end(m, a), arg(a, 0), MAP_END_RECORD_SIZE as int),
{
    let cb = arg(a, 0);
    assert forall|total: u64, payload: Seq<u8>| advanced(
        m,
        #[trigger] append_skip(m, cb, total, payload),
        cb,
        total as int,
    ) by {
        lemma_skip_advances(m, cb, total, payload);
    }
    law_record_advances(m, cb, bytes_of(write_address(arg(a, 1), arg(a, 2))));
    law_record_advances(m, cb, bytes_of(write_address(arg(a, 1), 0)));
    law_record_advances(m, cb, bytes_of(equeue_record(arg(a, 1), arg(a, 2), arg(a, 3))));
}

/// A recorded read takes the measured size, keeps where it stopped, and makes
/// the continuation visible in the type flags.
pub proof fn law_read_is_recorded(m: Machine, job: ReadJob, bytes_read: u64)
    requires
        finish_read(m, job, bytes_read).1 == (ReadState::Done { code: OK }),
    ensures
        ({
            let after = finish_read(m, job, bytes_read).0;
            &&& value_or_zero(after.ampr.offsets, job.cb) == value_or_zero(
                m.ampr.offsets,
                job.cb,
            ) + READ_FILE_RECORD_SIZE
            &&& stream_of(after, job.cb) == Some(continuation(job))
            &&& flags_of(after, job.cb) & APR_TYPE_GATHER_SCATTER_VALID
                == APR_TYPE_GATHER_SCATTER_VALID
        }),
{
    law_record_advances(m, job.cb, bytes_of(read_record(job, bytes_read)));
    let f = flags_of(append(m, job.cb, bytes_of(read_record(job, bytes_read))).0, job.cb);
    assert(((f | 0x0001_0000u32) & !0u32) & 0x0001_0000u32 == 0x0001_0000u32) by (bit_vector);
}

/// After a recorded read, a gather goes on in the same file at the address
/// behind it, and a scatter at the file offset behind it.
pub proof fn law_next_read_goes_on(m: Machine, job: ReadJob, bytes_read: u64, a: Seq<u64>)
    requires
        finish_read(m, job, bytes_read).1 == (ReadState::Done { code: OK }),
        arg(a, 0) == job.cb,
        job.cb != 0,
    ensures
        ({
            let after = finish_read(m, job, bytes_read).0;
            let destination = job.destination.wrapping_add(job.size);
            let file_offset = job.file_offset.wrapping_add(job.size);
            &&& valid_read_size(arg(a, 3)) && valid_file_offset(arg(a, 4)) && valid_read_range(
                destination,
                arg(a, 3),
            ) ==> apr_read_file_gather(after, a) == start_read(
                after,
                ReadJob {
                    cb: job.cb,
                    file_id: job.file_id,
                    destination,
                    size: arg(a, 3),
                    file_offset: arg(a, 4),
                },
            )
            &&& valid_read_range(arg(a, 3), arg(a, 4)) && valid_file_offset(file_offset)
                ==> apr_read_file_scatter(after, a) == start_read(
                after,
                ReadJob {
                    cb: job.cb,
                    file_id: job.file_id,
                    destination: arg(a, 3),
                    size: arg(a, 4),
                    file_offset,
                },
            )
        }),
{
    law_read_is_recorded(m, job, bytes_read);
}

/// A window that was opened can be closed, once: closing it needs room for the
/// record, and a second close is not permitted.
pub proof fn law_map_window(m: Machine, a: Seq<u64>, b: Seq<u64>)
    requires
        apr_map_begin(m, a).1 == OK,
        arg(b, 0) == arg(a, 0),
    ensures
        ({
            let open = apr_map_begin(m, a).0;
            let (closed, code) = apr_map_end(open, b);
            &&& code != SCE_ERROR_PERMISSION_DENIED
            &&& code == OK ==> apr_map_end(closed, b) == (closed, SCE_ERROR_PERMISSION_DENIED)
        }),
{
    let cb = arg(a, 0);
    let m1 = append_skip(m, cb, MAP_BEGIN_RECORD_SIZE, Seq::empty()).0;
    let f = flags_of(m1, cb);
    assert(((f | 0x0002_0000u32) & !0u32) & 0x0002_0000u32 != 0) by (bit_vector);
    let open = apr_map_begin(m, a).0;
    let m2 = append_skip(open, cb, MAP_END_RECORD_SIZE, Seq::empty()).0;
    let g = flags_of(m2, cb);
    assert(((g | 0u32) & !0x0002_0000u32) & 0x0002_0000u32 == 0) by (bit_vector);
}

/// Construction and reset rewind a command buffer: its cursor and count are
/// zero, and no read continues. Construction also lowers its flags.
pub proof fn law_rewound(m: Machine, a: Seq<u64>)
    ensures
        ({
            let (after, r) = ctor(m, a);
            r == arg(a, 0) && r != 0 && r != SCE_ERROR_MEMORY_FAULT ==> {
                &&& value_or_zero(after.ampr.offsets, r) == 0
                &&& value_or_zero(after.ampr.counts, r) == 0
                &&& stream_of(after, r) is None
                &&& flags_of(after, r) == 0
            }
        }),
        ({
            let (after, r) = reset(m, a);
            r == OK ==> {
                &&& value_or_zero(after.ampr.offsets, arg(a, 0)) == 0
                &&& value_or_zero(after.ampr.counts, arg(a, 0)) == 0
                &&& stream_of(after, arg(a, 0)) is None
                &&& flags_of(after, arg(a, 0)) == flags_of(m, arg(a, 0))
            }
        }),
{
}

/// What a host with the file `file` reads at `offset`: at most `n` bytes, and
/// none at or behind the end.
pub open spec fn served(file: Seq<u8>, offset: u64, n: nat) -> Seq<u8> {
    if offset >= file.len() {
        Seq::empty()
    } else if offset + n >= file.len() {
        file.subrange(offset as int, file.len() as int)
    } else {
        file.subrange(offset as int, offset + n)
    }
}

/// A read that is served from `file`, with at most `sizes[i]` bytes in the i-th
/// answer.
pub open spec fn serve(m: Machine, s: ReadState, file: Seq<u8>, sizes: Seq<nat>) -> (
    Machine,
    ReadState,
)
    decreases sizes.len(),
{
    match s {
        ReadState::Chunk { job, done, offset, want } => if sizes.len() == 0 {
            (m, s)
        } else {
            let (m1, s1) = chunk_step(m, s, Ok(served(file, offset, sizes[0])));
            serve(m1, s1, file, sizes.drop_first())
        },
        _ => (m, s),
    }
}

/// The part of `file` that a job asks for.
pub open spec fn requested(job: ReadJob, file: Seq<u8>) -> Seq<u8> {
    if job.file_offset >= file.len() {
        Seq::empty()
    } else if job.file_offset + job.size >= file.len() {
        file.subrange(job.file_offset as int, file.len() as int)
    } else {
        file.subrange(job.file_offset as int, job.file_offset + job.size)
    }
}

/// The end of a read that has put `data` into guest memory.
pub open spec fn finish_with(m: Machine, job: ReadJob, data: Seq<u8>) -> (Machine, ReadState) {
    finish_read(m.with_mem(store(m.mem, job.destination as int, data)), job, data.len() as u64)
}

proof fn lemma_serve(m: Machine, job: ReadJob, file: Seq<u8>, done: u64, sizes: Seq<nat>)
    requires
        file.len() <= MAX_HOST_OFFSET,
        job.file_offset < file.len(),
        mapped(m.mem, job.destination as int, requested(job, file).len()),
        done <= requested(job, file).len(),
        done < job.size,
        forall|i: int| 0 <= i < sizes.len() ==> #[trigger] sizes[i] > 0,
    ensures
        ({
            let data = requested(job, file);
            let before = m.with_mem(store(m.mem, job.destination as int, data.take(done as int)));
            let (start, state) = next_chunk(before, job, done);
            let end = serve(start, state, file, sizes);
            end == finish_with(m, job, data) || (end.1 is Chunk && sizes.len() <= data.len()
                - done)
        }),
    decreases sizes.len(),
{
    let data = requested(job, file);
    let at = job.destination as int;
    let mem = store(m.mem, at, data.take(done as int));
    let before = m.with_mem(mem);
    let (start, state) = next_chunk(before, job, done);
    assert(start == before);
    assert(state is Chunk);
    if sizes.len() > 0 {
        let offset = state->Chunk_offset;
        let want = state->Chunk_want;
        assert(sizes[0] > 0);
        let answer = served(file, offset, sizes[0]);
        let b = wanted(answer, want);
        assert forall|i: int| at + done <= i < at + done + b.len() implies #[trigger] mem.dom().contains(
            i,
        ) by {
            assert(m.mem.dom().contains(i));
        }
        let (m1, s1) = chunk_step(start, state, Ok(answer));
        if b.len() == 0 {
            assert(data.take(done as int) =~= data);
            assert(serve(m1, s1, file, sizes.drop_first()) == (m1, s1));
        } else {
            let next = (done + b.len()) as u64;
            assert(b =~= data.subrange(done as int, next as int));
            assert(store(mem, at + done, b) =~= store(m.mem, at, data.take(next as int)));
            if next >= job.size {
                assert(data.take(next as int) =~= data);
                assert(serve(m1, s1, file, sizes.drop_first()) == (m1, s1));
            } else {
                assert forall|i: int| 0 <= i < sizes.drop_first().len() implies #[trigger] sizes.drop_first()[i]
                    > 0 by {
                    assert(sizes[i + 1] > 0);
                }
                lemma_serve(m, job, file, next, sizes.drop_first());
            }
        }
    }
}

/// A read delivers exactly what was asked for: however the host cuts the file
/// into answers, once it has given enough of them the whole part of the file
/// that was asked for is in guest memory, up to the end of the file, and the
/// record says how much that was.
pub proof fn law_read_is_exact(m: Machine, job: ReadJob, file: Seq<u8>, sizes: Seq<nat>)
    requires
        file.len() <= MAX_HOST_OFFSET,
        job.size > 0,
        mapped(m.mem, job.destination as int, requested(job, file).len()),
        forall|i: int| 0 <= i < sizes.len() ==> #[trigger] sizes[i] > 0,
    ensures
        ({
            let (start, state) = open_step(m, ReadState::Open { job }, Ok(file.len() as u64));
            let end = serve(start, state, file, sizes);
            let data = requested(job, file);
            &&& end.1 is Done ==> end == finish_with(m, job, data)
            &&& sizes.len() > data.len() ==> end == finish_with(m, job, data)
        }),
{
    let data = requested(job, file);
    let at = job.destination as int;
    if job.file_offset >= file.len() {
        assert(store(m.mem, at, data) =~= m.mem);
    } else {
        assert(store(m.mem, at, data.take(0)) =~= m.mem);
        lemma_serve(m, job, file, 0, sizes);
    }
}

/// The exports of libSceAmpr.
#[derive(Clone, Copy, PartialEq, Eq, Structural, Debug)]
pub enum AmprExport {
    Ctor,
    Dtor,
    SetBuffer,
    Reset,
    ClearBuffer,
    GetSize,
    GetCurrentOffset,
    GetNumCommands,
    AprReadFile,
    WriteEqueueRecord,
    WriteAddressRecord,
    ReadFileRecordSize,
    KernelEventQueueRecordSize,
    WriteAddressRecordSize,
    Nop,
    NopWithData,
    ConstructNop,
    ConstructMarker,
    Marker,
    MarkerWithColor,
    PopMarker,
    GetTypeFlags,
    GetBufferBaseAddress,
    WriteAddress0400,
    WaitOrCounterNop,
    WriteAddressFromSource,
    AprReadFileGather,
    AprReadFileScatter,
    AprReadFileGatherScatter,
    AprResetGatherScatterState,
    AprMapBegin,
    AprMapDirectBegin,
    AprMapEnd,
    MeasureNop,
    MeasureNopWithData,
    MeasureMarker,
    MeasureMarkerWithColor,
    PopMarkerRecordSize,
    WaitRecordSize,
    MeasureReadFileGather,
    MeasureReadFileScatter,
    MeasureReadFileGatherScatter,
    ResetGatherScatterRecordSize,
    MeasureMapBegin,
    MeasureMapDirectBegin,
    MapEndRecordSize,
}

impl Export for AmprExport {
    open spec fn as_handler(self) -> Handler {
        Handler::Ampr(self)
    }

    fn handler(self) -> (r: Handler) {
        Handler::Ampr(self)
    }
}

/// Names and the exports that answer them.
pub const EXPORTS: [(&'static str, &'static str, AmprExport); 53] = [
    ("libSceAmpr", "sceAmprCommandBufferConstructor", AmprExport::Ctor),
    ("libSceAmpr", "sceAmprAprCommandBufferConstructor", AmprExport::Ctor),
    ("libSceAmpr", "sceAmprCommandBufferDestructor", AmprExport::Dtor),
    ("libSceAmpr", "sceAmprAprCommandBufferDestructor", AmprExport::Dtor),
    ("libSceAmpr", "sceAmprCommandBufferSetBuffer", AmprExport::SetBuffer),
    ("libSceAmpr", "sceAmprCommandBufferReset", AmprExport::Reset),
    ("libSceAmpr", "sceAmprCommandBufferClearBuffer", AmprExport::ClearBuffer),
    ("libSceAmpr", "sceAmprCommandBufferGetSize", AmprExport::GetSize),
    ("libSceAmpr", "sceAmprCommandBufferGetCurrentOffset", AmprExport::GetCurrentOffset),
    ("libSceAmpr", "sceAmprCommandBufferGetNumCommands", AmprExport::GetNumCommands),
    ("libSceAmpr", "sceAmprAprCommandBufferReadFile", AmprExport::AprReadFile),
    (
        "libSceAmpr",
        "sceAmprCommandBufferWriteKernelEventQueue_04_00",
        AmprExport::WriteEqueueRecord,
    ),
    ("libSceAmpr", "sceAmprCommandBufferWriteAddressOnCompletion", AmprExport::WriteAddressRecord),
    ("libSceAmpr", "sceAmprMeasureCommandSizeReadFile", AmprExport::ReadFileRecordSize),
    (
        "libSceAmpr",
        "sceAmprMeasureCommandSizeWriteKernelEventQueue_04_00",
        AmprExport::KernelEventQueueRecordSize,
    ),
    (
        "libSceAmpr",
        "sceAmprMeasureCommandSizeWriteAddressOnCompletion",
        AmprExport::WriteAddressRecordSize,
    ),
    ("libSceAmpr", "sceAmprCommandBufferNop", AmprExport::Nop),
    ("libSceAmpr", "sceAmprCommandBufferNopWithData", AmprExport::NopWithData),
    ("libSceAmpr", "sceAmprCommandBufferConstructNop", AmprExport::ConstructNop),
    ("libSceAmpr", "sceAmprCommandBufferConstructMarker", AmprExport::ConstructMarker),
    ("libSceAmpr", "sceAmprCommandBufferSetMarker", AmprExport::Marker),
    ("libSceAmpr", "sceAmprCommandBufferSetMarkerWithColor", AmprExport::MarkerWithColor),
    ("libSceAmpr", "sceAmprCommandBufferPushMarker", AmprExport::Marker),
    ("libSceAmpr", "sceAmprCommandBufferPushMarkerWithColor", AmprExport::MarkerWithColor),
    ("libSceAmpr", "sceAmprCommandBufferPopMarker", AmprExport::PopMarker),
    ("libSceAmpr", "sceAmprCommandBufferGetType", AmprExport::GetTypeFlags),
    ("libSceAmpr", "sceAmprCommandBufferGetBufferBaseAddress", AmprExport::GetBufferBaseAddress),
    ("libSceAmpr", "sceAmprCommandBufferWriteAddress_04_00", AmprExport::WriteAddress0400),
    ("libSceAmpr", "sceAmprAprCommandBufferReadFileGather", AmprExport::AprReadFileGather),
    ("libSceAmpr", "sceAmprAprCommandBufferReadFileScatter", AmprExport::AprReadFileScatter),
    (
        "libSceAmpr",
        "sceAmprAprCommandBufferReadFileGatherScatter",
        AmprExport::AprReadFileGatherScatter,
    ),
    (
        "libSceAmpr",
        "sceAmprAprCommandBufferResetGatherScatterState",
        AmprExport::AprResetGatherScatterState,
    ),
    ("libSceAmpr", "sceAmprMeasureCommandSizeNop", AmprExport::MeasureNop),
    ("libSceAmpr", "sceAmprMeasureCommandSizeNopWithData", AmprExport::MeasureNopWithData),
    ("libSceAmpr", "sceAmprMeasureCommandSizeSetMarker", AmprExport::MeasureMarker),
    (
        "libSceAmpr",
        "sceAmprMeasureCommandSizeSetMarkerWithColor",
        AmprExport::MeasureMarkerWithColor,
    ),
    ("libSceAmpr", "sceAmprMeasureCommandSizePushMarker", AmprExport::MeasureMarker),
    (
        "libSceAmpr",
        "sceAmprMeasureCommandSizePushMarkerWithColor",
        AmprExport::MeasureMarkerWithColor,
    ),
    ("libSceAmpr", "sceAmprMeasureCommandSizePopMarker", AmprExport::PopMarkerRecordSize),
    (
        "libSceAmpr",
        "sceAmprMeasureCommandSizeWriteAddress_04_00",
        AmprExport::WriteAddressRecordSize,
    ),
    (
        "libSceAmpr",
        "sceAmprMeasureCommandSizeWriteAddressFromCounter_04_00",
        AmprExport::WriteAddressRecordSize,
    ),
    (
        "libSceAmpr",
        "sceAmprMeasureCommandSizeWriteAddressFromCounterPair_04_00",
        AmprExport::WriteAddressRecordSize,
    ),
    (
        "libSceAmpr",
        "sceAmprMeasureCommandSizeWriteAddressFromTimeCounter_04_00",
        AmprExport::WriteAddressRecordSize,
    ),
    ("libSceAmpr", "sceAmprMeasureCommandSizeWaitOnAddress_04_00", AmprExport::WaitRecordSize),
    ("libSceAmpr", "sceAmprMeasureCommandSizeWaitOnCounter_04_00", AmprExport::WaitRecordSize),
    ("libSceAmpr", "sceAmprMeasureCommandSizeWriteCounter_04_00", AmprExport::WaitRecordSize),
    ("libSceAmpr", "sceAmprMeasureCommandSizeReadFileGather", AmprExport::MeasureReadFileGather),
    ("libSceAmpr", "sceAmprMeasureCommandSizeReadFileScatter", AmprExport::MeasureReadFileScatter),
    (
        "libSceAmpr",
        "sceAmprMeasureCommandSizeReadFileGatherScatter",
        AmprExport::MeasureReadFileGatherScatter,
    ),
    (
        "libSceAmpr",
        "sceAmprMeasureCommandSizeResetGatherScatterState",
        AmprExport::ResetGatherScatterRecordSize,
    ),
    ("libSceAmpr", "sceAmprMeasureCommandSizeMapBegin", AmprExport::MeasureMapBegin),
    ("libSceAmpr", "sceAmprMeasureCommandSizeMapDirectBegin", AmprExport::MeasureMapDirectBegin),
    ("libSceAmpr", "sceAmprMeasureCommandSizeMapEnd", AmprExport::MapEndRecordSize),
];

/// Names whose exports do less than they should, and what is missing.
pub const INCOMPLETE_EXPORTS: [(&'static str, &'static str, AmprExport, &'static str); 9] = [
    (
        "libSceAmpr",
        "sceAmprCommandBufferWaitOnAddress_04_00",
        AmprExport::WaitOrCounterNop,
        "wait dropped: submissions complete synchronously; the address condition is not re-checked (KytyPS5 parity)",
    ),
    (
        "libSceAmpr",
        "sceAmprCommandBufferWaitOnCounter_04_00",
        AmprExport::WaitOrCounterNop,
        "wait dropped: submissions complete synchronously; AMPR counters are unmodeled (KytyPS5 parity)",
    ),
    (
        "libSceAmpr",
        "sceAmprCommandBufferWriteCounter_04_00",
        AmprExport::WaitOrCounterNop,
        "AMPR counters unmodeled: the counter write is dropped (KytyPS5 parity)",
    ),
    (
        "libSceAmpr",
        "sceAmprCommandBufferWriteAddressFromCounter_04_00",
        AmprExport::WriteAddressFromSource,
        "writes 0 at completion: AMPR counters unmodeled (KytyPS5 parity)",
    ),
    (
        "libSceAmpr",
        "sceAmprCommandBufferWriteAddressFromCounterPair_04_00",
        AmprExport::WriteAddressFromSource,
        "writes 0 at completion: AMPR counter pairs unmodeled (KytyPS5 parity)",
    ),
    (
        "libSceAmpr",
        "sceAmprCommandBufferWriteAddressFromTimeCounter_04_00",
        AmprExport::WriteAddressFromSource,
        "writes 0 at completion: the AMPR time counter is unmodeled (KytyPS5 parity)",
    ),
    (
        "libSceAmpr",
        "sceAmprAprCommandBufferMapBegin",
        AmprExport::AprMapBegin,
        "validated and window-flagged, but no memory is actually mapped (KytyPS5 parity)",
    ),
    (
        "libSceAmpr",
        "sceAmprAprCommandBufferMapDirectBegin",
        AmprExport::AprMapDirectBegin,
        "validated and window-flagged, but no memory is actually mapped (KytyPS5 parity)",
    ),
    (
        "libSceAmpr",
        "sceAmprAprCommandBufferMapEnd",
        AmprExport::AprMapEnd,
        "closes the window flag only; no mapping was performed (KytyPS5 parity)",
    ),
];

/// The registry with this library in it.
pub open spec fn registered(r: Registry) -> Registry {
    with_incomplete(with_exports(r, EXPORTS@), INCOMPLETE_EXPORTS@)
}

/// Register libSceAmpr.
pub fn register(registry: &mut HleRegistry)
    ensures
        final(registry)@ == registered(old(registry)@),
{
    registry.register_exports(&EXPORTS);
    registry.register_incompletes(&INCOMPLETE_EXPORTS);
}

/// What an export does: the next machine and the answer.
pub open spec fn effect(e: AmprExport, m: Machine, a: Seq<u64>) -> (Machine, Reply) {
    match e {
        AmprExport::Ctor => returns_value(ctor(m, a)),
        AmprExport::Dtor => returns_value(dtor(m, a)),
        AmprExport::SetBuffer => returns_value(set_buffer(m, a)),
        AmprExport::Reset => returns_value(reset(m, a)),
        AmprExport::ClearBuffer => returns_value(clear_buffer(m, a)),
        AmprExport::GetSize => returns_value(get_size(m, a)),
        AmprExport::GetCurrentOffset => returns_value(get_current_offset(m, a)),
        AmprExport::GetNumCommands => returns_value(get_num_commands(m, a)),
        AmprExport::AprReadFile => (apr_read_file(m, a).0, Reply::Read(apr_read_file(m, a).1)),
        AmprExport::WriteEqueueRecord => returns_value(write_equeue_record(m, a)),
        AmprExport::WriteAddressRecord => returns_value(write_address_record(m, a)),
        AmprExport::ReadFileRecordSize => (m, Reply::Return(READ_FILE_RECORD_SIZE)),
        AmprExport::KernelEventQueueRecordSize => (
            m,
            Reply::Return(KERNEL_EVENT_QUEUE_RECORD_SIZE),
        ),
        AmprExport::WriteAddressRecordSize => (m, Reply::Return(WRITE_ADDRESS_RECORD_SIZE)),
        AmprExport::Nop => returns_value(nop(m, a)),
        AmprExport::NopWithData => returns_value(nop_with_data(m, a)),
        AmprExport::ConstructNop => returns_value(construct_nop(m, a)),
        AmprExport::ConstructMarker => returns_value(
            append_marker(m, arg(a, 0), arg(a, 2), arg(a, 3) != 0),
        ),
        AmprExport::Marker => returns_value(append_marker(m, arg(a, 0), arg(a, 1), false)),
        AmprExport::MarkerWithColor => returns_value(append_marker(m, arg(a, 0), arg(a, 1), true)),
        AmprExport::PopMarker => returns_value(pop_marker(m, a)),
        AmprExport::GetTypeFlags => returns_value(get_type_flags(m, a)),
        AmprExport::GetBufferBaseAddress => returns_value(get_buffer_base_address(m, a)),
        AmprExport::WriteAddress0400 => returns_value(write_address_record(m, a)),
        AmprExport::WaitOrCounterNop => returns_value(wait_or_counter_nop(m, a)),
        AmprExport::WriteAddressFromSource => returns_value(write_address_from_source(m, a)),
        AmprExport::AprReadFileGather => (
            apr_read_file_gather(m, a).0,
            Reply::Read(apr_read_file_gather(m, a).1),
        ),
        AmprExport::AprReadFileScatter => (
            apr_read_file_scatter(m, a).0,
            Reply::Read(apr_read_file_scatter(m, a).1),
        ),
        AmprExport::AprReadFileGatherScatter => (
            apr_read_file_gather_scatter(m, a).0,
            Reply::Read(apr_read_file_gather_scatter(m, a).1),
        ),
        AmprExport::AprResetGatherScatterState => returns_value(
            apr_reset_gather_scatter_state(m, a),
        ),
        AmprExport::AprMapBegin => returns_value(apr_map_begin(m, a)),
        AmprExport::AprMapDirectBegin => returns_value(apr_map_direct_begin(m, a)),
        AmprExport::AprMapEnd => returns_value(apr_map_end(m, a)),
        AmprExport::MeasureNop => (m, Reply::Return(nop_size(lo(arg(a, 0))) as u64)),
        AmprExport::MeasureNopWithData => (
            m,
            Reply::Return(nop_with_data_size(lo(arg(a, 0))) as u64),
        ),
        AmprExport::MeasureMarker => (m, Reply::Return(marker_size(m.mem, arg(a, 0), false))),
        AmprExport::MeasureMarkerWithColor => (
            m,
            Reply::Return(marker_size(m.mem, arg(a, 0), true)),
        ),
        AmprExport::PopMarkerRecordSize => (m, Reply::Return(POP_MARKER_RECORD_SIZE)),
        AmprExport::WaitRecordSize => (m, Reply::Return(WAIT_RECORD_SIZE)),
        AmprExport::MeasureReadFileGather => (m, Reply::Return(read_file_gather_size(a))),
        AmprExport::MeasureReadFileScatter => (m, Reply::Return(read_file_scatter_size(a))),
        AmprExport::MeasureReadFileGatherScatter => (
            m,
            Reply::Return(read_file_gather_scatter_size(a)),
        ),
        AmprExport::ResetGatherScatterRecordSize => (
            m,
            Reply::Return(RESET_GATHER_SCATTER_RECORD_SIZE),
        ),
        AmprExport::MeasureMapBegin => (m, Reply::Return(map_begin_size(a))),
        AmprExport::MeasureMapDirectBegin => (m, Reply::Return(map_direct_begin_size(a))),
        AmprExport::MapEndRecordSize => (m, Reply::Return(MAP_END_RECORD_SIZE)),
    }
}

/// Call an export.
pub fn call(e: AmprExport, ctx: &mut HleContext, args: &[u64]) -> (r: Outcome)
    ensures
        final(ctx)@ == effect(e, old(ctx)@, args@).0,
        r@ == effect(e, old(ctx)@, args@).1,
{
    match e {
        AmprExport::Ctor => Outcome::Return(hle_ctor(ctx, args)),
        AmprExport::Dtor => Outcome::Return(hle_dtor(ctx, args)),
        AmprExport::SetBuffer => Outcome::Return(hle_set_buffer(ctx, args)),
        AmprExport::Reset => Outcome::Return(hle_reset(ctx, args)),
        AmprExport::ClearBuffer => Outcome::Return(hle_clear_buffer(ctx, args)),
        AmprExport::GetSize => Outcome::Return(hle_get_size(ctx, args)),
        AmprExport::GetCurrentOffset => Outcome::Return(hle_get_current_offset(ctx, args)),
        AmprExport::GetNumCommands => Outcome::Return(hle_get_num_commands(ctx, args)),
        AmprExport::AprReadFile => Outcome::Read(hle_apr_read_file(ctx, args)),
        AmprExport::WriteEqueueRecord => Outcome::Return(hle_write_equeue_record(ctx, args)),
        AmprExport::WriteAddressRecord => Outcome::Return(hle_write_address_record(ctx, args)),
        AmprExport::ReadFileRecordSize => Outcome::Return(READ_FILE_RECORD_SIZE),
        AmprExport::KernelEventQueueRecordSize => Outcome::Return(KERNEL_EVENT_QUEUE_RECORD_SIZE),
        AmprExport::WriteAddressRecordSize => Outcome::Return(WRITE_ADDRESS_RECORD_SIZE),
        AmprExport::Nop => Outcome::Return(hle_nop(ctx, args)),
        AmprExport::NopWithData => Outcome::Return(hle_nop_with_data(ctx, args)),
        AmprExport::ConstructNop => Outcome::Return(hle_construct_nop(ctx, args)),
        AmprExport::ConstructMarker => Outcome::Return(hle_construct_marker(ctx, args)),
        AmprExport::Marker => Outcome::Return(hle_marker(ctx, args)),
        AmprExport::MarkerWithColor => Outcome::Return(hle_marker_with_color(ctx, args)),
        AmprExport::PopMarker => Outcome::Return(hle_pop_marker(ctx, args)),
        AmprExport::GetTypeFlags => Outcome::Return(hle_get_type_flags(ctx, args)),
        AmprExport::GetBufferBaseAddress => Outcome::Return(hle_get_buffer_base_address(ctx, args)),
        AmprExport::WriteAddress0400 => Outcome::Return(hle_write_address_04_00(ctx, args)),
        AmprExport::WaitOrCounterNop => Outcome::Return(hle_wait_or_counter_nop(ctx, args)),
        AmprExport::WriteAddressFromSource => Outcome::Return(
            hle_write_address_from_source(ctx, args),
        ),
        AmprExport::AprReadFileGather => Outcome::Read(hle_apr_read_file_gather(ctx, args)),
        AmprExport::AprReadFileScatter => Outcome::Read(hle_apr_read_file_scatter(ctx, args)),
        AmprExport::AprReadFileGatherScatter => Outcome::Read(
            hle_apr_read_file_gather_scatter(ctx, args),
        ),
        AmprExport::AprResetGatherScatterState => Outcome::Return(
            hle_apr_reset_gather_scatter_state(ctx, args),
        ),
        AmprExport::AprMapBegin => Outcome::Return(hle_apr_map_begin(ctx, args)),
        AmprExport::AprMapDirectBegin => Outcome::Return(hle_apr_map_direct_begin(ctx, args)),
        AmprExport::AprMapEnd => Outcome::Return(hle_apr_map_end(ctx, args)),
        AmprExport::MeasureNop => Outcome::Return(measure_nop_size(lo32(get_arg(args, 0)))),
        AmprExport::MeasureNopWithData => Outcome::Return(
            nop_with_data_record_size(lo32(get_arg(args, 0))),
        ),
        AmprExport::MeasureMarker => Outcome::Return(hle_measure_marker(ctx, args)),
        AmprExport::MeasureMarkerWithColor => Outcome::Return(
            hle_measure_marker_with_color(ctx, args),
        ),
        AmprExport::PopMarkerRecordSize => Outcome::Return(POP_MARKER_RECORD_SIZE),
        AmprExport::WaitRecordSize => Outcome::Return(WAIT_RECORD_SIZE),
        AmprExport::MeasureReadFileGather => Outcome::Return(hle_measure_read_file_gather(args)),
        AmprExport::MeasureReadFileScatter => Outcome::Return(hle_measure_read_file_scatter(args)),
        AmprExport::MeasureReadFileGatherScatter => Outcome::Return(
            hle_measure_read_file_gather_scatter(args),
        ),
        AmprExport::ResetGatherScatterRecordSize => Outcome::Return(
            RESET_GATHER_SCATTER_RECORD_SIZE,
        ),
        AmprExport::MeasureMapBegin => Outcome::Return(hle_measure_map_begin(args)),
        AmprExport::MeasureMapDirectBegin => Outcome::Return(hle_measure_map_direct_begin(args)),
        AmprExport::MapEndRecordSize => Outcome::Return(MAP_END_RECORD_SIZE),
    }
}

} // verus!
