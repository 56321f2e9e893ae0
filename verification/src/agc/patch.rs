//! Patching packets after they were built, and asking for their size and
//! payload.
use vstd::prelude::*;
use crate::agc::packet::{
    header_dwords, header_op, header_reg, hi, hi32, lo, lo32, pm4_total_dwords, IT_COND_EXEC,
    IT_INDIRECT_BUFFER, IT_NOP, IT_REWIND, IT_WAIT_REG_MEM, R_DMA_DATA, R_RELEASE_MEM, R_WAIT_MEM32,
    R_WAIT_MEM64, R_WRITE_DATA,
};
use crate::context::{
    arg, checked, get_arg, HleContext, Machine, OK, SCE_ERROR_INVALID_ARGUMENT,
    SCE_ERROR_MEMORY_FAULT,
};
use crate::mem::{load_u32, Mem};

verus! {

/// The opcode and discriminator of the packet at `command`, or `None` when it
/// is null or unreadable.
pub open spec fn identity(m: Mem, command: u64) -> Option<(u32, u32)> {
    if command == 0 {
        None
    } else {
        match load_u32(m, command as int) {
            Some(h) => Some((header_op(h), header_reg(h))),
            None => None,
        }
    }
}

/// The packet at `command` is a NOP with discriminator `reg`.
pub open spec fn is_nop(m: Mem, command: u64, reg: u32) -> bool {
    identity(m, command) == Some((IT_NOP, reg))
}

/// The packet at `command` has opcode `op`.
pub open spec fn has_op(m: Mem, command: u64, op: u32) -> bool {
    match identity(m, command) {
        Some((o, _)) => o == op,
        None => false,
    }
}

/// The opcode and discriminator of the packet at `command`.
pub fn packet_identity(ctx: &HleContext, command: u64) -> (r: Option<(u32, u32)>)
    ensures
        r == identity(ctx@.mem, command),
{
    if command == 0 {
        return None;
    }
    match ctx.mem.read_u32(command, 0) {
        Some(h) => Some(((h >> 8) & 0xFF, (h >> 2) & 0x3F)),
        None => None,
    }
}

fn check_nop(ctx: &HleContext, command: u64, reg: u32) -> (r: bool)
    ensures
        r == is_nop(ctx@.mem, command, reg),
{
    match packet_identity(ctx, command) {
        Some((o, g)) => o == IT_NOP && g == reg,
        None => false,
    }
}

fn check_op(ctx: &HleContext, command: u64, op: u32) -> (r: bool)
    ensures
        r == has_op(ctx@.mem, command, op),
{
    match packet_identity(ctx, command) {
        Some((o, _)) => o == op,
        None => false,
    }
}

/// Overwrite a 32-bit field.
pub open spec fn set_u32(m: Machine, a: int, v: u32) -> (Machine, u64) {
    checked(m.put_u32(a, v), OK, SCE_ERROR_MEMORY_FAULT)
}

/// Overwrite a 64-bit field.
pub open spec fn set_u64(m: Machine, a: int, v: u64) -> (Machine, u64) {
    checked(m.put_u64(a, v), OK, SCE_ERROR_MEMORY_FAULT)
}

/// Overwrite two 32-bit fields, the second only when the first succeeded.
pub open spec fn set_pair(m: Machine, a: int, v: u32, b: int, w: u32) -> (Machine, u64) {
    match set_u32(m, a, v) {
        (m1, code) => if code != OK {
            (m1, code)
        } else {
            set_u32(m1, b, w)
        },
    }
}

/// Replace the bits of a 32-bit field that `keep` does not cover.
pub open spec fn update(m: Machine, a: int, keep: u32, bits: u32) -> (Machine, u64) {
    match load_u32(m.mem, a) {
        Some(w) => set_u32(m, a, (w & keep) | bits),
        None => (m, SCE_ERROR_MEMORY_FAULT),
    }
}

/// Overwrite the 32-bit field at `base + off`.
pub fn store_u32(ctx: &mut HleContext, base: u64, off: u64, v: u32) -> (r: u64)
    ensures
        final(ctx)@ == set_u32(old(ctx)@, base + off, v).0,
        r == set_u32(old(ctx)@, base + off, v).1,
{
    if ctx.mem.write_u32(base, off, v) {
        OK
    } else {
        SCE_ERROR_MEMORY_FAULT
    }
}

/// Overwrite the 64-bit field at `base + off`.
pub fn store_u64(ctx: &mut HleContext, base: u64, off: u64, v: u64) -> (r: u64)
    ensures
        final(ctx)@ == set_u64(old(ctx)@, base + off, v).0,
        r == set_u64(old(ctx)@, base + off, v).1,
{
    if ctx.mem.write_u64(base, off, v) {
        OK
    } else {
        SCE_ERROR_MEMORY_FAULT
    }
}

/// Overwrite the 32-bit fields at `base + off` and behind it.
fn store_pair(ctx: &mut HleContext, base: u64, off: u64, v: u32, w: u32) -> (r: u64)
    requires
        off <= 0x1000,
    ensures
        final(ctx)@ == set_pair(old(ctx)@, base + off, v, base + off + 4, w).0,
        r == set_pair(old(ctx)@, base + off, v, base + off + 4, w).1,
{
    if !ctx.mem.write_u32(base, off, v) {
        return SCE_ERROR_MEMORY_FAULT;
    }
    store_u32(ctx, base, off + 4, w)
}

/// Replace the bits of the 32-bit field at `base + off` outside `keep`.
pub fn update_u32(ctx: &mut HleContext, base: u64, off: u64, keep: u32, bits: u32) -> (r: u64)
    ensures
        final(ctx)@ == update(old(ctx)@, base + off, keep, bits).0,
        r == update(old(ctx)@, base + off, keep, bits).1,
{
    match ctx.mem.read_u32(base, off) {
        Some(w) => store_u32(ctx, base, off, (w & keep) | bits),
        None => SCE_ERROR_MEMORY_FAULT,
    }
}

/// Give a RELEASE_MEM packet another destination address.
pub open spec fn queue_eop_patch_address(m: Machine, a: Seq<u64>) -> (Machine, u64) {
    let command = arg(a, 0);
    if is_nop(m.mem, command, R_RELEASE_MEM) {
        set_u64(m, command + 12, arg(a, 1))
    } else {
        (m, SCE_ERROR_INVALID_ARGUMENT)
    }
}

/// `sceAgcQueueEndOfPipeActionPatchAddress(command, address)`.
pub fn hle_queue_eop_patch_address(ctx: &mut HleContext, args: &[u64]) -> (r: u64)
    ensures
        final(ctx)@ == queue_eop_patch_address(old(ctx)@, args@).0,
        r == queue_eop_patch_address(old(ctx)@, args@).1,
{
    let command: u64 = get_arg(args, 0);
    if !(check_nop(ctx, command, R_RELEASE_MEM)) {
        return SCE_ERROR_INVALID_ARGUMENT;
    }
    store_u64(ctx, command, 12, get_arg(args, 1))
}

/// Give a DMA packet another destination.
pub open spec fn dma_data_patch_address(m: Machine, a: Seq<u64>) -> (Machine, u64) {
    let command = arg(a, 0);
    if is_nop(m.mem, command, R_DMA_DATA) {
        set_u64(m, command + 16, arg(a, 1))
    } else {
        (m, SCE_ERROR_INVALID_ARGUMENT)
    }
}

/// `sceAgcDmaDataPatchSetDstAddressOrOffset(command, destination)`.
pub fn hle_dma_data_patch_address(ctx: &mut HleContext, args: &[u64]) -> (r: u64)
    ensures
        final(ctx)@ == dma_data_patch_address(old(ctx)@, args@).0,
        r == dma_data_patch_address(old(ctx)@, args@).1,
{
    let command: u64 = get_arg(args, 0);
    if !(check_nop(ctx, command, R_DMA_DATA)) {
        return SCE_ERROR_INVALID_ARGUMENT;
    }
    store_u64(ctx, command, 16, get_arg(args, 1))
}

/// Give a DMA packet another source.
pub open spec fn dma_data_patch_src(m: Machine, a: Seq<u64>) -> (Machine, u64) {
    let command = arg(a, 0);
    if is_nop(m.mem, command, R_DMA_DATA) {
        set_u64(m, command + 24, arg(a, 1))
    } else {
        (m, SCE_ERROR_INVALID_ARGUMENT)
    }
}

/// `sceAgcDmaDataPatchSetSrcAddressOrOffsetOrImmediate(command, source)`.
pub fn hle_dma_data_patch_src(ctx: &mut HleContext, args: &[u64]) -> (r: u64)
    ensures
        final(ctx)@ == dma_data_patch_src(old(ctx)@, args@).0,
        r == dma_data_patch_src(old(ctx)@, args@).1,
{
    let command: u64 = get_arg(args, 0);
    if !(check_nop(ctx, command, R_DMA_DATA)) {
        return SCE_ERROR_INVALID_ARGUMENT;
    }
    store_u64(ctx, command, 24, get_arg(args, 1))
}

/// Give a WRITE_DATA packet another destination address.
pub open spec fn write_data_patch_address(m: Machine, a: Seq<u64>) -> (Machine, u64) {
    let command = arg(a, 0);
    if is_nop(m.mem, command, R_WRITE_DATA) {
        set_u64(m, command + 8, arg(a, 1))
    } else {
        (m, SCE_ERROR_INVALID_ARGUMENT)
    }
}

/// `sceAgcWriteDataPatchAddress(command, address)`.
pub fn hle_write_data_patch_address(ctx: &mut HleContext, args: &[u64]) -> (r: u64)
    ensures
        final(ctx)@ == write_data_patch_address(old(ctx)@, args@).0,
        r == write_data_patch_address(old(ctx)@, args@).1,
{
    let command: u64 = get_arg(args, 0);
    if !(check_nop(ctx, command, R_WRITE_DATA)) {
        return SCE_ERROR_INVALID_ARGUMENT;
    }
    store_u64(ctx, command, 8, get_arg(args, 1))
}

/// The data that a patched RELEASE_MEM packet writes: for a context above one
/// and immediate 32-bit data, the bits above 24 carry the context's generation.
pub open spec fn eop_data(context_id: u32, data_selection: u32, data: u64) -> u64 {
    if context_id > 1 && data_selection == 1 {
        (((context_id - 2) as u64) << 24) | (data & 0x00FF_FFFF)
    } else {
        data
    }
}

/// Give a RELEASE_MEM packet other data.
pub open spec fn queue_eop_patch_data(m: Machine, a: Seq<u64>) -> (Machine, u64) {
    let command = arg(a, 0);
    if is_nop(m.mem, command, R_RELEASE_MEM) {
        set_u64(m, command + 20, eop_data(lo(arg(a, 1)), lo(arg(a, 2)), arg(a, 3)))
    } else {
        (m, SCE_ERROR_INVALID_ARGUMENT)
    }
}

/// `sceAgcQueueEndOfPipeActionPatchData(command, contextId, dataSelection, data)`.
pub fn hle_queue_eop_patch_data(ctx: &mut HleContext, args: &[u64]) -> (r: u64)
    ensures
        final(ctx)@ == queue_eop_patch_data(old(ctx)@, args@).0,
        r == queue_eop_patch_data(old(ctx)@, args@).1,
{
    let command: u64 = get_arg(args, 0);
    if !(check_nop(ctx, command, R_RELEASE_MEM)) {
        return SCE_ERROR_INVALID_ARGUMENT;
    }
    let context_id: u32 = lo32(get_arg(args, 1));
    let data: u64 = get_arg(args, 3);
    let packet_data: u64 = if context_id > 1 && lo32(get_arg(args, 2)) == 1 {
        (((context_id - 2) as u64) << 24) | (data & 0x00FF_FFFF)
    } else {
        data
    };
    store_u64(ctx, command, 20, packet_data)
}

/// Replace the cache-control half-word of a RELEASE_MEM packet.
pub open spec fn queue_eop_patch_gcr_cntl(m: Machine, a: Seq<u64>) -> (Machine, u64) {
    let command = arg(a, 0);
    if is_nop(m.mem, command, R_RELEASE_MEM) {
        update(m, command + 8, 0xFFFF_0000, lo(arg(a, 1)) & 0xFFFF)
    } else {
        (m, SCE_ERROR_INVALID_ARGUMENT)
    }
}

/// `sceAgcQueueEndOfPipeActionPatchGcrCntl(command, gcrControl)`.
pub fn hle_queue_eop_patch_gcr_cntl(ctx: &mut HleContext, args: &[u64]) -> (r: u64)
    ensures
        final(ctx)@ == queue_eop_patch_gcr_cntl(old(ctx)@, args@).0,
        r == queue_eop_patch_gcr_cntl(old(ctx)@, args@).1,
{
    let command: u64 = get_arg(args, 0);
    if !(check_nop(ctx, command, R_RELEASE_MEM)) {
        return SCE_ERROR_INVALID_ARGUMENT;
    }
    update_u32(ctx, command, 8, 0xFFFF_0000, lo32(get_arg(args, 1)) & 0xFFFF)
}

/// Replace the action byte of a RELEASE_MEM packet.
pub open spec fn queue_eop_patch_type(m: Machine, a: Seq<u64>) -> (Machine, u64) {
    let command = arg(a, 0);
    if is_nop(m.mem, command, R_RELEASE_MEM) {
        update(m, command + 4, !0xFFu32, lo(arg(a, 1)) & 0xFF)
    } else {
        (m, SCE_ERROR_INVALID_ARGUMENT)
    }
}

/// `sceAgcQueueEndOfPipeActionPatchType(command, eventType)`.
pub fn hle_queue_eop_patch_type(ctx: &mut HleContext, args: &[u64]) -> (r: u64)
    ensures
        final(ctx)@ == queue_eop_patch_type(old(ctx)@, args@).0,
        r == queue_eop_patch_type(old(ctx)@, args@).1,
{
    let command: u64 = get_arg(args, 0);
    if !(check_nop(ctx, command, R_RELEASE_MEM)) {
        return SCE_ERROR_INVALID_ARGUMENT;
    }
    update_u32(ctx, command, 4, !0xFFu32, lo32(get_arg(args, 1)) & 0xFF)
}

/// Where each of the three wait layouts keeps a field: in a standard wait, in a
/// 32-bit and in a 64-bit memory wait.
pub open spec fn wait_field(m: Mem, command: u64, standard: int, mem32: int, mem64: int) -> Option<
    int,
> {
    match identity(m, command) {
        Some((op, reg)) => if op == IT_WAIT_REG_MEM {
            Some(standard)
        } else if op == IT_NOP && reg == R_WAIT_MEM32 {
            Some(mem32)
        } else if op == IT_NOP && reg == R_WAIT_MEM64 {
            Some(mem64)
        } else {
            None
        },
        None => None,
    }
}

/// Find a field of a wait packet.
fn find_wait_field(ctx: &HleContext, command: u64, standard: u64, mem32: u64, mem64: u64) -> (r:
    Option<u64>)
    ensures
        r is Some == wait_field(
            ctx@.mem,
            command,
            standard as int,
            mem32 as int,
            mem64 as int,
        ) is Some,
        r is Some ==> r->0 == wait_field(
            ctx@.mem,
            command,
            standard as int,
            mem32 as int,
            mem64 as int,
        )->0,
{
    match packet_identity(ctx, command) {
        Some((op, reg)) => if op == IT_WAIT_REG_MEM {
            Some(standard)
        } else if op == IT_NOP && reg == R_WAIT_MEM32 {
            Some(mem32)
        } else if op == IT_NOP && reg == R_WAIT_MEM64 {
            Some(mem64)
        } else {
            None
        },
        None => None,
    }
}

/// Give a wait packet another poll address.
pub open spec fn wait_reg_mem_patch_address(m: Machine, a: Seq<u64>) -> (Machine, u64) {
    let command = arg(a, 0);
    match wait_field(m.mem, command, 8, 4, 4) {
        Some(off) => set_u64(m, command + off, arg(a, 1)),
        None => (m, SCE_ERROR_INVALID_ARGUMENT),
    }
}

/// `sceAgcWaitRegMemPatchAddress(command, address)`.
pub fn hle_wait_reg_mem_patch_address(ctx: &mut HleContext, args: &[u64]) -> (r: u64)
    ensures
        final(ctx)@ == wait_reg_mem_patch_address(old(ctx)@, args@).0,
        r == wait_reg_mem_patch_address(old(ctx)@, args@).1,
{
    let command: u64 = get_arg(args, 0);
    match find_wait_field(ctx, command, 8, 4, 4) {
        Some(off) => store_u64(ctx, command, off, get_arg(args, 1)),
        None => SCE_ERROR_INVALID_ARGUMENT,
    }
}

/// Replace the compare function of a wait packet.
pub open spec fn wait_reg_mem_patch_compare_function(m: Machine, a: Seq<u64>) -> (Machine, u64) {
    let command = arg(a, 0);
    match wait_field(m.mem, command, 4, 16, 28) {
        Some(off) => update(m, command + off, !0xFFu32, (arg(a, 1) & 0xFF) as u32),
        None => (m, SCE_ERROR_INVALID_ARGUMENT),
    }
}

/// `sceAgcWaitRegMemPatchCompareFunction(command, compareFunction)`.
pub fn hle_wait_reg_mem_patch_compare_function(ctx: &mut HleContext, args: &[u64]) -> (r: u64)
    ensures
        final(ctx)@ == wait_reg_mem_patch_compare_function(old(ctx)@, args@).0,
        r == wait_reg_mem_patch_compare_function(old(ctx)@, args@).1,
{
    let command: u64 = get_arg(args, 0);
    match find_wait_field(ctx, command, 4, 16, 28) {
        Some(off) => update_u32(ctx, command, off, !0xFFu32, (get_arg(args, 1) & 0xFF) as u32),
        None => SCE_ERROR_INVALID_ARGUMENT,
    }
}

/// Give a wait packet another reference value, 64 bits wide in a 64-bit memory wait.
pub open spec fn wait_reg_mem_patch_reference(m: Machine, a: Seq<u64>) -> (Machine, u64) {
    let command = arg(a, 0);
    match wait_field(m.mem, command, 16, 20, 20) {
        Some(off) => if is_nop(m.mem, command, R_WAIT_MEM64) {
            set_u64(m, command + off, arg(a, 1))
        } else {
            set_u32(m, command + off, lo(arg(a, 1)))
        },
        None => (m, SCE_ERROR_INVALID_ARGUMENT),
    }
}

/// `sceAgcWaitRegMemPatchReference(command, reference)`.
pub fn hle_wait_reg_mem_patch_reference(ctx: &mut HleContext, args: &[u64]) -> (r: u64)
    ensures
        final(ctx)@ == wait_reg_mem_patch_reference(old(ctx)@, args@).0,
        r == wait_reg_mem_patch_reference(old(ctx)@, args@).1,
{
    let command: u64 = get_arg(args, 0);
    match find_wait_field(ctx, command, 16, 20, 20) {
        Some(off) => if check_nop(ctx, command, R_WAIT_MEM64) {
            store_u64(ctx, command, off, get_arg(args, 1))
        } else {
            store_u32(ctx, command, off, lo32(get_arg(args, 1)))
        },
        None => SCE_ERROR_INVALID_ARGUMENT,
    }
}

/// Let a COND_EXEC packet cover everything from its own end to `bufferEnd`, at
/// most `0x3FFF` DWORDs.
pub open spec fn cond_exec_patch_set_end(m: Machine, a: Seq<u64>) -> (Machine, u64) {
    let command = arg(a, 0);
    let end = arg(a, 1);
    if end == 0 || !has_op(m.mem, command, IT_COND_EXEC) || end < command + 20 || (end - command
        - 20) / 4 > 0x3FFF {
        (m, SCE_ERROR_INVALID_ARGUMENT)
    } else {
        update(m, command + 16, !0x3FFFu32, ((end - command - 20) / 4) as u32)
    }
}

/// `sceAgc{,Async}CondExecPatchSetEnd(command, bufferEnd)`.
pub fn hle_cond_exec_patch_set_end(ctx: &mut HleContext, args: &[u64]) -> (r: u64)
    ensures
        final(ctx)@ == cond_exec_patch_set_end(old(ctx)@, args@).0,
        r == cond_exec_patch_set_end(old(ctx)@, args@).1,
{
    let command: u64 = get_arg(args, 0);
    let end: u64 = get_arg(args, 1);
    if end == 0 || !check_op(ctx, command, IT_COND_EXEC) {
        return SCE_ERROR_INVALID_ARGUMENT;
    }
    if end < 20 || end - 20 < command {
        return SCE_ERROR_INVALID_ARGUMENT;
    }
    let dwords: u64 = (end - 20 - command) / 4;
    if dwords > 0x3FFF {
        return SCE_ERROR_INVALID_ARGUMENT;
    }
    update_u32(ctx, command, 16, !0x3FFFu32, dwords as u32)
}

/// Give a COND_EXEC packet another 4-byte aligned label.
pub open spec fn cond_exec_patch_set_command_address(m: Machine, a: Seq<u64>) -> (Machine, u64) {
    let command = arg(a, 0);
    let label = arg(a, 1);
    if label == 0 || label & 3 != 0 || !has_op(m.mem, command, IT_COND_EXEC) {
        (m, SCE_ERROR_INVALID_ARGUMENT)
    } else {
        match load_u32(m.mem, command + 4) {
            None => (m, SCE_ERROR_MEMORY_FAULT),
            Some(w) => set_pair(
                m,
                command + 4,
                (w & 0x3) | (lo(label) & 0xFFFF_FFFC),
                command + 8,
                hi(label),
            ),
        }
    }
}

/// `sceAgc{,Async}CondExecPatchSetCommandAddress(command, predicateAddress)`.
pub fn hle_cond_exec_patch_set_command_address(ctx: &mut HleContext, args: &[u64]) -> (r: u64)
    ensures
        final(ctx)@ == cond_exec_patch_set_command_address(old(ctx)@, args@).0,
        r == cond_exec_patch_set_command_address(old(ctx)@, args@).1,
{
    let command: u64 = get_arg(args, 0);
    let label: u64 = get_arg(args, 1);
    if label == 0 || label & 3 != 0 || !check_op(ctx, command, IT_COND_EXEC) {
        return SCE_ERROR_INVALID_ARGUMENT;
    }
    match ctx.mem.read_u32(command, 4) {
        None => SCE_ERROR_MEMORY_FAULT,
        Some(w) => store_pair(
            ctx,
            command,
            4,
            (w & 0x3) | (lo32(label) & 0xFFFF_FFFC),
            hi32(label),
        ),
    }
}

/// Arm or release the stall bit of a REWIND packet.
pub open spec fn rewind_patch_set_rewind_state(m: Machine, a: Seq<u64>) -> (Machine, u64) {
    let command = arg(a, 0);
    if has_op(m.mem, command, IT_REWIND) {
        set_u32(m, command + 4, ((arg(a, 1) & 0x1) as u32) << 31)
    } else {
        (m, SCE_ERROR_INVALID_ARGUMENT)
    }
}

/// `sceAgc{,Async}RewindPatchSetRewindState(command, state)`.
pub fn hle_rewind_patch_set_rewind_state(ctx: &mut HleContext, args: &[u64]) -> (r: u64)
    ensures
        final(ctx)@ == rewind_patch_set_rewind_state(old(ctx)@, args@).0,
        r == rewind_patch_set_rewind_state(old(ctx)@, args@).1,
{
    let command: u64 = get_arg(args, 0);
    if !(check_op(ctx, command, IT_REWIND)) {
        return SCE_ERROR_INVALID_ARGUMENT;
    }
    store_u32(ctx, command, 4, ((get_arg(args, 1) & 0x1) as u32) << 31)
}

/// Total DWORDs of the packet at `command`, or `None` when it is null or
/// unreadable.
pub open spec fn total_dwords(m: Mem, command: u64) -> Option<int> {
    if command == 0 {
        None
    } else {
        match load_u32(m, command as int) {
            Some(h) => Some(header_dwords(h)),
            None => None,
        }
    }
}

/// Total DWORDs of the packet at `command`.
pub fn packet_total_dwords(ctx: &HleContext, command: u64) -> (r: Option<u32>)
    ensures
        r is Some == total_dwords(ctx@.mem, command) is Some,
        r is Some ==> r->0 == total_dwords(ctx@.mem, command)->0,
{
    if command == 0 {
        return None;
    }
    match ctx.mem.read_u32(command, 0) {
        Some(h) => Some(pm4_total_dwords(h) as u32),
        None => None,
    }
}

/// Give a conditional-chain packet, the 14-DWORD form, another 8-byte aligned label.
pub open spec fn branch_patch_set_compare_address(m: Machine, a: Seq<u64>) -> (Machine, u64) {
    let command = arg(a, 0);
    if has_op(m.mem, command, IT_INDIRECT_BUFFER) && total_dwords(m.mem, command) == Some(14int) {
        set_pair(m, command + 8, lo(arg(a, 1)) & 0xFFFF_FFF8, command + 12, hi(arg(a, 1)))
    } else {
        (m, SCE_ERROR_INVALID_ARGUMENT)
    }
}

/// `sceAgcBranchPatchSetCompareAddress(command, compareAddress)`.
pub fn hle_branch_patch_set_compare_address(ctx: &mut HleContext, args: &[u64]) -> (r: u64)
    ensures
        final(ctx)@ == branch_patch_set_compare_address(old(ctx)@, args@).0,
        r == branch_patch_set_compare_address(old(ctx)@, args@).1,
{
    let command: u64 = get_arg(args, 0);
    let is_branch: bool = match packet_total_dwords(ctx, command) {
        Some(n) => n == 14,
        None => false,
    };
    if !(check_op(ctx, command, IT_INDIRECT_BUFFER) && is_branch) {
        return SCE_ERROR_INVALID_ARGUMENT;
    }
    store_pair(ctx, command, 8, lo32(get_arg(args, 1)) & 0xFFFF_FFF8, hi32(get_arg(args, 1)))
}

/// Bind an indirect register packet to a register block.
pub open spec fn set_indirect_patch_address(m: Machine, a: Seq<u64>) -> (Machine, u64) {
    let command = arg(a, 0);
    if command == 0 || arg(a, 1) == 0 {
        (m, SCE_ERROR_INVALID_ARGUMENT)
    } else {
        set_pair(m, command + 8, lo(arg(a, 1)), command + 12, hi(arg(a, 1)))
    }
}

/// `sceAgcSet{Cx,Sh,Uc}RegIndirectPatchSetAddress(command, registers)`.
pub fn hle_set_indirect_patch_address(ctx: &mut HleContext, args: &[u64]) -> (r: u64)
    ensures
        final(ctx)@ == set_indirect_patch_address(old(ctx)@, args@).0,
        r == set_indirect_patch_address(old(ctx)@, args@).1,
{
    let command: u64 = get_arg(args, 0);
    let registers: u64 = get_arg(args, 1);
    if command == 0 || registers == 0 {
        return SCE_ERROR_INVALID_ARGUMENT;
    }
    store_pair(ctx, command, 8, lo32(registers), hi32(registers))
}

/// Overwrite the register count of an indirect register packet.
pub open spec fn set_indirect_patch_set_num_registers(m: Machine, a: Seq<u64>) -> (Machine, u64) {
    let command = arg(a, 0);
    if command == 0 {
        (m, SCE_ERROR_INVALID_ARGUMENT)
    } else {
        set_u32(m, command + 4, lo(arg(a, 1)))
    }
}

/// `sceAgcSet{Cx,Sh,Uc}RegIndirectPatchSetNumRegisters(command, numRegisters)`.
pub fn hle_set_indirect_patch_set_num_registers(ctx: &mut HleContext, args: &[u64]) -> (r: u64)
    ensures
        final(ctx)@ == set_indirect_patch_set_num_registers(old(ctx)@, args@).0,
        r == set_indirect_patch_set_num_registers(old(ctx)@, args@).1,
{
    let command: u64 = get_arg(args, 0);
    if command == 0 {
        return SCE_ERROR_INVALID_ARGUMENT;
    }
    store_u32(ctx, command, 4, lo32(get_arg(args, 1)))
}

/// Add to the register count of an indirect register packet, modulo 2^32.
pub open spec fn add_indirect_patch_registers(m: Machine, a: Seq<u64>) -> (Machine, u64) {
    let command = arg(a, 0);
    if command == 0 {
        (m, SCE_ERROR_INVALID_ARGUMENT)
    } else {
        match load_u32(m.mem, command + 4) {
            None => (m, SCE_ERROR_MEMORY_FAULT),
            Some(n) => set_u32(m, command + 4, n.wrapping_add(lo(arg(a, 1)))),
        }
    }
}

/// `sceAgcSet{Cx,Sh,Uc}RegIndirectPatchAddRegisters(command, registerCount)`.
pub fn hle_add_indirect_patch_registers(ctx: &mut HleContext, args: &[u64]) -> (r: u64)
    ensures
        final(ctx)@ == add_indirect_patch_registers(old(ctx)@, args@).0,
        r == add_indirect_patch_registers(old(ctx)@, args@).1,
{
    let command: u64 = get_arg(args, 0);
    if command == 0 {
        return SCE_ERROR_INVALID_ARGUMENT;
    }
    match ctx.mem.read_u32(command, 4) {
        None => SCE_ERROR_MEMORY_FAULT,
        Some(n) => store_u32(ctx, command, 4, n.wrapping_add(lo32(get_arg(args, 1)))),
    }
}

/// The header of a private one-DWORD marker packet: `0x3FFF10xx`. The type bits
/// above it are clear, so no ordinary packet looks like one.
pub open spec fn is_one_dword_marker(h: u32) -> bool {
    h & 0xFFFF_FF00 == 0x3FFF_1000
}

/// The total length of the packet at an address, in DWORDs; zero when it is null or unreadable.
pub open spec fn get_packet_size(m: Machine, a: Seq<u64>) -> (Machine, u64) {
    let packet = arg(a, 0);
    (m, if packet == 0 {
        0
    } else {
        match load_u32(m.mem, packet as int) {
            None => 0,
            Some(h) => if is_one_dword_marker(h) {
                1
            } else {
                header_dwords(h) as u64
            },
        }
    })
}

/// `sceAgcGetPacketSize(packet)`.
pub fn hle_get_packet_size(ctx: &mut HleContext, args: &[u64]) -> (r: u64)
    ensures
        final(ctx)@ == get_packet_size(old(ctx)@, args@).0,
        r == get_packet_size(old(ctx)@, args@).1,
{
    let packet: u64 = get_arg(args, 0);
    if packet == 0 {
        return 0;
    }
    match ctx.mem.read_u32(packet, 0) {
        None => 0,
        Some(h) => if h & 0xFFFF_FF00 == 0x3FFF_1000 {
            1
        } else {
            pm4_total_dwords(h) as u64
        },
    }
}

/// The header of a packet without payload: all ones in the length field.
pub open spec fn has_no_payload(h: u32) -> bool {
    h & 0x3FFF_0000 == 0x3FFF_0000
}

/// Write the address of a packet's payload, modulo 2^64: two DWORDs in, or one
/// for type zero, where a packet without payload gives null.
pub open spec fn get_data_packet_payload_address(m: Machine, a: Seq<u64>) -> (Machine, u64) {
    let output = arg(a, 0);
    let command = arg(a, 1);
    if output == 0 || command == 0 {
        (m, SCE_ERROR_INVALID_ARGUMENT)
    } else if lo(arg(a, 2)) != 0 {
        set_u64(m, output as int, command.wrapping_add(8))
    } else {
        match load_u32(m.mem, command as int) {
            None => (m, SCE_ERROR_MEMORY_FAULT),
            Some(h) => set_u64(
                m,
                output as int,
                if has_no_payload(h) {
                    0
                } else {
                    command.wrapping_add(4)
                },
            ),
        }
    }
}

/// `sceAgcGetDataPacketPayloadAddress(output, command, type)`.
pub fn hle_get_data_packet_payload_address(ctx: &mut HleContext, args: &[u64]) -> (r: u64)
    ensures
        final(ctx)@ == get_data_packet_payload_address(old(ctx)@, args@).0,
        r == get_data_packet_payload_address(old(ctx)@, args@).1,
{
    let output: u64 = get_arg(args, 0);
    let command: u64 = get_arg(args, 1);
    if output == 0 || command == 0 {
        return SCE_ERROR_INVALID_ARGUMENT;
    }
    if lo32(get_arg(args, 2)) != 0 {
        return store_u64(ctx, output, 0, command.wrapping_add(8));
    }
    match ctx.mem.read_u32(command, 0) {
        None => SCE_ERROR_MEMORY_FAULT,
        Some(h) => store_u64(
            ctx,
            output,
            0,
            if h & 0x3FFF_0000 == 0x3FFF_0000 {
                0
            } else {
                command.wrapping_add(4)
            },
        ),
    }
}

/// The payload of the packet at `command` with header `h`: its address, modulo
/// 2^64, and its size in bytes.
pub open spec fn payload_range(command: u64, h: u32, kind: u32) -> (u64, u64) {
    let body = ((h >> 14) & 0xFFFC) as u64;
    if kind != 0 {
        (command.wrapping_add(8), body)
    } else if has_no_payload(h) {
        (0, 0)
    } else {
        (command.wrapping_add(4), (body + 4) as u64)
    }
}

/// Write the address and the size of a packet's payload.
pub open spec fn get_data_packet_payload_range(m: Machine, a: Seq<u64>) -> (Machine, u64) {
    let range = arg(a, 0);
    let command = arg(a, 1);
    if range == 0 || command == 0 {
        (m, SCE_ERROR_INVALID_ARGUMENT)
    } else {
        match load_u32(m.mem, command as int) {
            None => (m, SCE_ERROR_MEMORY_FAULT),
            Some(h) => {
                let (base, size) = payload_range(command, h, lo(arg(a, 2)));
                match set_u64(m, range as int, base) {
                    (m1, code) => if code != OK {
                        (m1, code)
                    } else {
                        set_u64(m1, range + 8, size)
                    },
                }
            },
        }
    }
}

/// `sceAgcGetDataPacketPayloadRange(range, command, type)`.
pub fn hle_get_data_packet_payload_range(ctx: &mut HleContext, args: &[u64]) -> (r: u64)
    ensures
        final(ctx)@ == get_data_packet_payload_range(old(ctx)@, args@).0,
        r == get_data_packet_payload_range(old(ctx)@, args@).1,
{
    let range: u64 = get_arg(args, 0);
    let command: u64 = get_arg(args, 1);
    if range == 0 || command == 0 {
        return SCE_ERROR_INVALID_ARGUMENT;
    }
    let h: u32 = match ctx.mem.read_u32(command, 0) {
        None => {
            return SCE_ERROR_MEMORY_FAULT;
        },
        Some(h) => h,
    };
    assert((h >> 14) & 0xFFFC <= 0xFFFC) by (bit_vector);
    let body: u64 = ((h >> 14) & 0xFFFC) as u64;
    let (base, size): (u64, u64) = if lo32(get_arg(args, 2)) != 0 {
        (command.wrapping_add(8), body)
    } else if h & 0x3FFF_0000 == 0x3FFF_0000 {
        (0, 0)
    } else {
        (command.wrapping_add(4), body + 4)
    };
    if !ctx.mem.write_u64(range, 0, base) {
        return SCE_ERROR_MEMORY_FAULT;
    }
    store_u64(ctx, range, 8, size)
}

/// The output class of a primitive type: points, lines, triangles, rectangles,
/// legacy rectangle lists.
pub open spec fn gs_out(prim_type: u32) -> u32 {
    if prim_type == 1 {
        0
    } else if prim_type == 2 || prim_type == 3 || prim_type == 10 || prim_type == 11 || prim_type
        == 18 {
        1
    } else if prim_type == 7 {
        3
    } else if prim_type == 17 {
        4
    } else {
        2
    }
}

/// The output class of a primitive type.
pub fn primitive_type_to_gs_out(prim_type: u32) -> (r: u32)
    ensures
        r == gs_out(prim_type),
{
    match prim_type {
        1 => 0,
        2 | 3 | 10 | 11 | 18 => 1,
        7 => 3,
        17 => 4,
        _ => 2,
    }
}

/// Rewrite the output class in a context-register pair, unless the shader
/// stages drive it. A null table is skipped.
pub open spec fn update_cx_prim(m: Machine, table: u64, prim_type: u32) -> (Machine, u64) {
    if table == 0 {
        (m, OK)
    } else {
        match (load_u32(m.mem, table + 4), load_u32(m.mem, table + 12)) {
            (Some(stages), Some(class)) => if stages & 0x24 == 0 {
                set_u32(m, table + 12, (class & !7u32) | gs_out(prim_type))
            } else {
                (m, OK)
            },
            _ => (m, SCE_ERROR_MEMORY_FAULT),
        }
    }
}

fn update_cx_prim_run(ctx: &mut HleContext, table: u64, prim_type: u32) -> (r: u64)
    ensures
        final(ctx)@ == update_cx_prim(old(ctx)@, table, prim_type).0,
        r == update_cx_prim(old(ctx)@, table, prim_type).1,
{
    if table == 0 {
        return OK;
    }
    match (ctx.mem.read_u32(table, 4), ctx.mem.read_u32(table, 12)) {
        (Some(stages), Some(class)) => if stages & 0x24 == 0 {
            store_u32(ctx, table, 12, (class & !7u32) | primitive_type_to_gs_out(prim_type))
        } else {
            OK
        },
        _ => SCE_ERROR_MEMORY_FAULT,
    }
}

/// Refresh a pair of primitive-state tables for another primitive type. Null tables are skipped.
pub open spec fn update_prim_state(m: Machine, a: Seq<u64>) -> (Machine, u64) {
    let prim_type = lo(arg(a, 2));
    match update_cx_prim(m, arg(a, 0), prim_type) {
        (m1, code) => if code != OK || arg(a, 1) == 0 {
            (m1, code)
        } else {
            update(m1, arg(a, 1) + 20, !0x1Fu32, prim_type & 0x1F)
        },
    }
}

/// `sceAgcUpdatePrimState(cxRegisters, ucRegisters, primitiveType)`.
pub fn hle_update_prim_state(ctx: &mut HleContext, args: &[u64]) -> (r: u64)
    ensures
        final(ctx)@ == update_prim_state(old(ctx)@, args@).0,
        r == update_prim_state(old(ctx)@, args@).1,
{
    let prim_type: u32 = lo32(get_arg(args, 2));
    let code: u64 = update_cx_prim_run(ctx, get_arg(args, 0), prim_type);
    if code != OK || get_arg(args, 1) == 0 {
        return code;
    }
    update_u32(ctx, get_arg(args, 1), 20, !0x1Fu32, prim_type & 0x1F)
}

} // verus!
