//! Builders that make one packet out of their arguments.
use vstd::prelude::*;
use crate::agc::packet::{
    emit, emit_packet, header, hi, hi32, lo, lo32, pm4, IT_COND_EXEC, IT_COPY_DATA,
    IT_DISPATCH_DIRECT, IT_DISPATCH_DRAW_PREAMBLE, IT_DISPATCH_INDIRECT, IT_DRAW_INDEX_INDIRECT,
    IT_DRAW_INDEX_INDIRECT_MULTI, IT_DRAW_INDEX_OFFSET_2, IT_DRAW_INDIRECT, IT_DRAW_INDIRECT_MULTI,
    IT_EVENT_WRITE, IT_GET_LOD_STATS, IT_INDEX_BASE, IT_INDEX_BUFFER_SIZE, IT_INDEX_TYPE,
    IT_INDIRECT_BUFFER, IT_NOP, IT_NUM_INSTANCES, IT_REWIND, IT_SET_BASE, IT_SET_CONTEXT_REG,
    IT_SET_PREDICATION, IT_SET_SH_REG, IT_SET_UCONFIG_REG, IT_WAIT_REG_MEM, R_ACB_RESET,
    R_ACQUIRE_MEM, R_CX_REGS_INDIRECT, R_DRAW_INDEX_AUTO, R_DRAW_RESET, R_FLIP, R_POP_MARKER,
    R_RELEASE_MEM, R_SH_REGS_INDIRECT, R_UC_REGS_INDIRECT, R_WAIT_FLIP_DONE, R_WAIT_MEM32,
    R_WAIT_MEM64, R_ZERO,
};
use crate::context::{arg, get_arg, HleContext, Machine};

verus! {

/// The modifier that the auto-indexed draws insist on.
pub const DRAW_AUTO_MODIFIER: u64 = 0x4000_0000;

/// The lowest and the highest workload stream.
pub const WORKLOAD_STREAM_MIN_ID: u64 = 1;

pub const WORKLOAD_STREAM_MAX_ID: u64 = 31;

/// The highest workload of a stream.
pub const WORKLOAD_ID_MAX: u64 = 63;

/// The dispatch initiator that a dispatch modifier contributes to.
pub open spec fn initiator(modifier: u64) -> u32 {
    (lo(modifier) & 0xA038) | 0x41
}

/// Compute a dispatch initiator.
pub fn dispatch_initiator(modifier: u64) -> (r: u32)
    ensures
        r == initiator(modifier),
{
    (lo32(modifier) & 0xA038) | 0x41
}

/// The draw initiator bit of a draw modifier: bit 8 moved to bit 5, unless bit
/// 32 suppresses it.
pub open spec fn draw_initiator(modifier: u64) -> u32 {
    if modifier & (1u64 << 32) != 0 {
        0
    } else {
        (lo(modifier) >> 3) & 0x20
    }
}

/// Compute a draw initiator.
pub fn draw_index_initiator(modifier: u64) -> (r: u32)
    ensures
        r == draw_initiator(modifier),
{
    if modifier & (1u64 << 32) != 0 {
        0
    } else {
        (lo32(modifier) >> 3) & 0x20
    }
}

/// An instance count, with zero meaning one.
pub open spec fn instances_or_one(count: u32) -> u32 {
    if count == 0 {
        1
    } else {
        count
    }
}

/// An instance count, with zero meaning one.
pub fn at_least_one(count: u32) -> (r: u32)
    ensures
        r == instances_or_one(count),
{
    if count == 0 {
        1
    } else {
        count
    }
}

/// The size field of an ACQUIRE_MEM packet: 256-byte units, zero for "all".
pub open spec fn size_field(size_bytes: u64) -> u32 {
    if size_bytes == u64::MAX {
        0
    } else {
        (size_bytes >> 8) as u32
    }
}

/// Compute the size field of an ACQUIRE_MEM packet.
pub fn acquire_size_field(size_bytes: u64) -> (r: u32)
    ensures
        r == size_field(size_bytes),
{
    if size_bytes == u64::MAX {
        0
    } else {
        (size_bytes >> 8) as u32
    }
}

/// An INDEX_TYPE packet; only cache policy zero is accepted.
pub open spec fn dcb_set_index_size(m: Machine, a: Seq<u64>) -> (Machine, u64) {
    if arg(a, 2) & 0xFF != 0 {
        (m, 0)
    } else {
        emit(
            m,
            arg(a, 0),
            seq![
                header(2, IT_INDEX_TYPE, R_ZERO),
                (arg(a, 1) & 0xFF) as u32,
            ],
        )
    }
}

/// `sceAgcDcbSetIndexSize(dcb, indexSize, cachePolicy)`.
pub fn hle_dcb_set_index_size(ctx: &mut HleContext, args: &[u64]) -> (r: u64)
    ensures
        final(ctx)@ == dcb_set_index_size(old(ctx)@, args@).0,
        r == dcb_set_index_size(old(ctx)@, args@).1,
{
    if get_arg(args, 2) & 0xFF != 0 {
        return 0;
    }
    emit_packet(
        ctx,
        get_arg(args, 0),
        &[
            pm4(2, IT_INDEX_TYPE, R_ZERO),
            (get_arg(args, 1) & 0xFF) as u32,
        ],
    )
}

/// A non-indexed draw.
pub open spec fn dcb_draw_index_auto(m: Machine, a: Seq<u64>) -> (Machine, u64) {
    if arg(a, 2) != DRAW_AUTO_MODIFIER {
        (m, 0)
    } else {
        emit(
            m,
            arg(a, 0),
            seq![
                header(7, IT_NOP, R_DRAW_INDEX_AUTO),
                lo(arg(a, 1)),
                0u32,
                0u32,
                0u32,
                0u32,
                0u32,
            ],
        )
    }
}

/// `sceAgcDcbDrawIndexAuto(dcb, indexCount, modifier)`.
pub fn hle_dcb_draw_index_auto(ctx: &mut HleContext, args: &[u64]) -> (r: u64)
    ensures
        final(ctx)@ == dcb_draw_index_auto(old(ctx)@, args@).0,
        r == dcb_draw_index_auto(old(ctx)@, args@).1,
{
    if get_arg(args, 2) != DRAW_AUTO_MODIFIER {
        return 0;
    }
    emit_packet(
        ctx,
        get_arg(args, 0),
        &[
            pm4(7, IT_NOP, R_DRAW_INDEX_AUTO),
            lo32(get_arg(args, 1)),
            0u32,
            0u32,
            0u32,
            0u32,
            0u32,
        ],
    )
}

/// A NUM_INSTANCES packet.
pub open spec fn dcb_set_num_instances(m: Machine, a: Seq<u64>) -> (Machine, u64) {
    emit(
        m,
        arg(a, 0),
        seq![
            header(2, IT_NUM_INSTANCES, R_ZERO),
            lo(arg(a, 1)),
        ],
    )
}

/// `sceAgcDcbSetNumInstances(dcb, instanceCount)`.
pub fn hle_dcb_set_num_instances(ctx: &mut HleContext, args: &[u64]) -> (r: u64)
    ensures
        final(ctx)@ == dcb_set_num_instances(old(ctx)@, args@).0,
        r == dcb_set_num_instances(old(ctx)@, args@).1,
{
    emit_packet(
        ctx,
        get_arg(args, 0),
        &[
            pm4(2, IT_NUM_INSTANCES, R_ZERO),
            lo32(get_arg(args, 1)),
        ],
    )
}

/// An INDEX_BASE packet followed by an INDEX_BUFFER_SIZE packet.
pub open spec fn dcb_set_index_buffer(m: Machine, a: Seq<u64>) -> (Machine, u64) {
    emit(
        m,
        arg(a, 0),
        seq![
            header(3, IT_INDEX_BASE, R_ZERO),
            lo(arg(a, 1)),
            hi(arg(a, 1)),
            header(2, IT_INDEX_BUFFER_SIZE, R_ZERO),
            lo(arg(a, 2)),
        ],
    )
}

/// `sceAgcDcbSetIndexBuffer(dcb, address, indexCount)`.
pub fn hle_dcb_set_index_buffer(ctx: &mut HleContext, args: &[u64]) -> (r: u64)
    ensures
        final(ctx)@ == dcb_set_index_buffer(old(ctx)@, args@).0,
        r == dcb_set_index_buffer(old(ctx)@, args@).1,
{
    emit_packet(
        ctx,
        get_arg(args, 0),
        &[
            pm4(3, IT_INDEX_BASE, R_ZERO),
            lo32(get_arg(args, 1)),
            hi32(get_arg(args, 1)),
            pm4(2, IT_INDEX_BUFFER_SIZE, R_ZERO),
            lo32(get_arg(args, 2)),
        ],
    )
}

/// A lone INDEX_BUFFER_SIZE packet.
pub open spec fn dcb_set_index_count(m: Machine, a: Seq<u64>) -> (Machine, u64) {
    emit(
        m,
        arg(a, 0),
        seq![
            header(2, IT_INDEX_BUFFER_SIZE, R_ZERO),
            lo(arg(a, 1)),
        ],
    )
}

/// `sceAgcDcbSetIndexCount(dcb, indexCount)`.
pub fn hle_dcb_set_index_count(ctx: &mut HleContext, args: &[u64]) -> (r: u64)
    ensures
        final(ctx)@ == dcb_set_index_count(old(ctx)@, args@).0,
        r == dcb_set_index_count(old(ctx)@, args@).1,
{
    emit_packet(
        ctx,
        get_arg(args, 0),
        &[
            pm4(2, IT_INDEX_BUFFER_SIZE, R_ZERO),
            lo32(get_arg(args, 1)),
        ],
    )
}

/// A queue reset; the operation must be `0x3FF` and the state zero.
pub open spec fn dcb_reset_queue(m: Machine, a: Seq<u64>) -> (Machine, u64) {
    if arg(a, 1) != 0x3FF || arg(a, 2) != 0 {
        (m, 0)
    } else {
        emit(
            m,
            arg(a, 0),
            seq![
                header(2, IT_NOP, R_DRAW_RESET),
                0u32,
            ],
        )
    }
}

/// `sceAgcDcbResetQueue(dcb, op, state)`.
pub fn hle_dcb_reset_queue(ctx: &mut HleContext, args: &[u64]) -> (r: u64)
    ensures
        final(ctx)@ == dcb_reset_queue(old(ctx)@, args@).0,
        r == dcb_reset_queue(old(ctx)@, args@).1,
{
    if get_arg(args, 1) != 0x3FF || get_arg(args, 2) != 0 {
        return 0;
    }
    emit_packet(
        ctx,
        get_arg(args, 0),
        &[
            pm4(2, IT_NOP, R_DRAW_RESET),
            0u32,
        ],
    )
}

/// A compute-queue reset.
pub open spec fn acb_reset_queue(m: Machine, a: Seq<u64>) -> (Machine, u64) {
    emit(
        m,
        arg(a, 0),
        seq![
            header(2, IT_NOP, R_ACB_RESET),
            0u32,
        ],
    )
}

/// `sceAgcAcbResetQueue(acb)`.
pub fn hle_acb_reset_queue(ctx: &mut HleContext, args: &[u64]) -> (r: u64)
    ensures
        final(ctx)@ == acb_reset_queue(old(ctx)@, args@).0,
        r == acb_reset_queue(old(ctx)@, args@).1,
{
    emit_packet(
        ctx,
        get_arg(args, 0),
        &[
            pm4(2, IT_NOP, R_ACB_RESET),
            0u32,
        ],
    )
}

/// A wait for a flip to finish.
pub open spec fn dcb_wait_until_safe(m: Machine, a: Seq<u64>) -> (Machine, u64) {
    emit(
        m,
        arg(a, 0),
        seq![
            header(7, IT_NOP, R_WAIT_FLIP_DONE),
            lo(arg(a, 1)),
            lo(arg(a, 2)),
            0u32,
            0u32,
            0u32,
            0u32,
        ],
    )
}

/// `sceAgcDcbWaitUntilSafeForRendering(dcb, videoOutHandle, displayBufferIndex)`.
pub fn hle_dcb_wait_until_safe(ctx: &mut HleContext, args: &[u64]) -> (r: u64)
    ensures
        final(ctx)@ == dcb_wait_until_safe(old(ctx)@, args@).0,
        r == dcb_wait_until_safe(old(ctx)@, args@).1,
{
    emit_packet(
        ctx,
        get_arg(args, 0),
        &[
            pm4(7, IT_NOP, R_WAIT_FLIP_DONE),
            lo32(get_arg(args, 1)),
            lo32(get_arg(args, 2)),
            0u32,
            0u32,
            0u32,
            0u32,
        ],
    )
}

/// The end of a debug-marker scope.
pub open spec fn dcb_pop_marker(m: Machine, a: Seq<u64>) -> (Machine, u64) {
    emit(
        m,
        arg(a, 0),
        seq![
            header(2, IT_NOP, R_POP_MARKER),
            0u32,
        ],
    )
}

/// `sceAgcDcbPopMarker(dcb)`.
pub fn hle_dcb_pop_marker(ctx: &mut HleContext, args: &[u64]) -> (r: u64)
    ensures
        final(ctx)@ == dcb_pop_marker(old(ctx)@, args@).0,
        r == dcb_pop_marker(old(ctx)@, args@).1,
{
    emit_packet(
        ctx,
        get_arg(args, 0),
        &[
            pm4(2, IT_NOP, R_POP_MARKER),
            0u32,
        ],
    )
}

/// A direct compute dispatch.
pub open spec fn cb_dispatch(m: Machine, a: Seq<u64>) -> (Machine, u64) {
    emit(
        m,
        arg(a, 0),
        seq![
            header(5, IT_DISPATCH_DIRECT, R_ZERO),
            lo(arg(a, 1)),
            lo(arg(a, 2)),
            lo(arg(a, 3)),
            initiator(arg(a, 4)),
        ],
    )
}

/// `sceAgcCbDispatch(cb, x, y, z, modifier)`.
pub fn hle_cb_dispatch(ctx: &mut HleContext, args: &[u64]) -> (r: u64)
    ensures
        final(ctx)@ == cb_dispatch(old(ctx)@, args@).0,
        r == cb_dispatch(old(ctx)@, args@).1,
{
    emit_packet(
        ctx,
        get_arg(args, 0),
        &[
            pm4(5, IT_DISPATCH_DIRECT, R_ZERO),
            lo32(get_arg(args, 1)),
            lo32(get_arg(args, 2)),
            lo32(get_arg(args, 3)),
            dispatch_initiator(get_arg(args, 4)),
        ],
    )
}

/// A compute dispatch with arguments at an offset from the bound base.
pub open spec fn dcb_dispatch_indirect(m: Machine, a: Seq<u64>) -> (Machine, u64) {
    emit(
        m,
        arg(a, 0),
        seq![
            header(3, IT_DISPATCH_INDIRECT, R_ZERO),
            lo(arg(a, 1)),
            initiator(arg(a, 2)),
        ],
    )
}

/// `sceAgcDcbDispatchIndirect(dcb, dataOffset, modifier)`.
pub fn hle_dcb_dispatch_indirect(ctx: &mut HleContext, args: &[u64]) -> (r: u64)
    ensures
        final(ctx)@ == dcb_dispatch_indirect(old(ctx)@, args@).0,
        r == dcb_dispatch_indirect(old(ctx)@, args@).1,
{
    emit_packet(
        ctx,
        get_arg(args, 0),
        &[
            pm4(3, IT_DISPATCH_INDIRECT, R_ZERO),
            lo32(get_arg(args, 1)),
            dispatch_initiator(get_arg(args, 2)),
        ],
    )
}

/// A compute dispatch with arguments at an address.
pub open spec fn acb_dispatch_indirect(m: Machine, a: Seq<u64>) -> (Machine, u64) {
    emit(
        m,
        arg(a, 0),
        seq![
            header(4, IT_DISPATCH_INDIRECT, R_ZERO),
            lo(arg(a, 1)),
            hi(arg(a, 1)),
            initiator(arg(a, 2)),
        ],
    )
}

/// `sceAgcAcbDispatchIndirect(acb, argumentsAddress, modifier)`.
pub fn hle_acb_dispatch_indirect(ctx: &mut HleContext, args: &[u64]) -> (r: u64)
    ensures
        final(ctx)@ == acb_dispatch_indirect(old(ctx)@, args@).0,
        r == acb_dispatch_indirect(old(ctx)@, args@).1,
{
    emit_packet(
        ctx,
        get_arg(args, 0),
        &[
            pm4(4, IT_DISPATCH_INDIRECT, R_ZERO),
            lo32(get_arg(args, 1)),
            hi32(get_arg(args, 1)),
            dispatch_initiator(get_arg(args, 2)),
        ],
    )
}

/// The base of indirect arguments, 8-byte aligned; the base index sits in the header.
pub open spec fn dcb_set_base_indirect_args(m: Machine, a: Seq<u64>) -> (Machine, u64) {
    emit(
        m,
        arg(a, 0),
        seq![
            header(4, IT_SET_BASE, R_ZERO) | (lo(arg(a, 1)) << 1),
            1u32,
            lo(arg(a, 2)) & !7u32,
            hi(arg(a, 2)),
        ],
    )
}

/// `sceAgcDcbSetBaseIndirectArgs(dcb, baseIndex, address)`.
pub fn hle_dcb_set_base_indirect_args(ctx: &mut HleContext, args: &[u64]) -> (r: u64)
    ensures
        final(ctx)@ == dcb_set_base_indirect_args(old(ctx)@, args@).0,
        r == dcb_set_base_indirect_args(old(ctx)@, args@).1,
{
    emit_packet(
        ctx,
        get_arg(args, 0),
        &[
            pm4(4, IT_SET_BASE, R_ZERO) | (lo32(get_arg(args, 1)) << 1),
            1u32,
            lo32(get_arg(args, 2)) & !7u32,
            hi32(get_arg(args, 2)),
        ],
    )
}

/// An indexed draw from an offset.
pub open spec fn dcb_draw_index_offset(m: Machine, a: Seq<u64>) -> (Machine, u64) {
    emit(
        m,
        arg(a, 0),
        seq![
            header(5, IT_DRAW_INDEX_OFFSET_2, R_ZERO),
            lo(arg(a, 2)),
            lo(arg(a, 1)),
            lo(arg(a, 2)),
            lo(arg(a, 3)) & 0xE000_0001,
        ],
    )
}

/// `sceAgcDcbDrawIndexOffset(dcb, indexOffset, indexCount, flags)`.
pub fn hle_dcb_draw_index_offset(ctx: &mut HleContext, args: &[u64]) -> (r: u64)
    ensures
        final(ctx)@ == dcb_draw_index_offset(old(ctx)@, args@).0,
        r == dcb_draw_index_offset(old(ctx)@, args@).1,
{
    emit_packet(
        ctx,
        get_arg(args, 0),
        &[
            pm4(5, IT_DRAW_INDEX_OFFSET_2, R_ZERO),
            lo32(get_arg(args, 2)),
            lo32(get_arg(args, 1)),
            lo32(get_arg(args, 2)),
            lo32(get_arg(args, 3)) & 0xE000_0001,
        ],
    )
}

/// A single type-2 filler DWORD.
pub open spec fn unknown_filler(m: Machine, a: Seq<u64>) -> (Machine, u64) {
    emit(
        m,
        arg(a, 0),
        seq![
            0x8000_0000u32,
        ],
    )
}

/// `sceAgcUnknownQj7QZpgr9Uw(dcb)`.
pub fn hle_unknown_filler(ctx: &mut HleContext, args: &[u64]) -> (r: u64)
    ensures
        final(ctx)@ == unknown_filler(old(ctx)@, args@).0,
        r == unknown_filler(old(ctx)@, args@).1,
{
    let words: [u32; 1] = [0x8000_0000u32];
    assert(words@ =~= seq![0x8000_0000u32]);
    emit_packet(ctx, get_arg(args, 0), &words)
}

/// One register write; the argument packs the offset (low half) and the value (high half).
pub open spec fn dcb_set_register_direct(m: Machine, a: Seq<u64>, op: u32) -> (Machine, u64) {
    emit(
        m,
        arg(a, 0),
        seq![
            header(3, op, R_ZERO),
            lo(arg(a, 1)) & 0xFFFF,
            hi(arg(a, 1)),
        ],
    )
}

/// `sceAgcDcbSet{Cx,Sh,Uc}RegisterDirect(dcb, register)` with the opcode of the
/// register space `op`.
pub fn dcb_set_register_direct_run(ctx: &mut HleContext, args: &[u64], op: u32) -> (r: u64)
    ensures
        final(ctx)@ == dcb_set_register_direct(old(ctx)@, args@, op).0,
        r == dcb_set_register_direct(old(ctx)@, args@, op).1,
{
    emit_packet(
        ctx,
        get_arg(args, 0),
        &[
            pm4(3, op, R_ZERO),
            lo32(get_arg(args, 1)) & 0xFFFF,
            hi32(get_arg(args, 1)),
        ],
    )
}

/// One Cx register write.
pub open spec fn dcb_set_cx_register_direct(m: Machine, a: Seq<u64>) -> (Machine, u64) {
    dcb_set_register_direct(m, a, IT_SET_CONTEXT_REG)
}

/// `sceAgcDcbSetCxRegisterDirect(dcb, register)`.
pub fn hle_dcb_set_cx_register_direct(ctx: &mut HleContext, args: &[u64]) -> (r: u64)
    ensures
        final(ctx)@ == dcb_set_cx_register_direct(old(ctx)@, args@).0,
        r == dcb_set_cx_register_direct(old(ctx)@, args@).1,
{
    dcb_set_register_direct_run(ctx, args, IT_SET_CONTEXT_REG)
}

/// One Sh register write.
pub open spec fn dcb_set_sh_register_direct(m: Machine, a: Seq<u64>) -> (Machine, u64) {
    dcb_set_register_direct(m, a, IT_SET_SH_REG)
}

/// `sceAgcDcbSetShRegisterDirect(dcb, register)`.
pub fn hle_dcb_set_sh_register_direct(ctx: &mut HleContext, args: &[u64]) -> (r: u64)
    ensures
        final(ctx)@ == dcb_set_sh_register_direct(old(ctx)@, args@).0,
        r == dcb_set_sh_register_direct(old(ctx)@, args@).1,
{
    dcb_set_register_direct_run(ctx, args, IT_SET_SH_REG)
}

/// One Uc register write.
pub open spec fn dcb_set_uc_register_direct(m: Machine, a: Seq<u64>) -> (Machine, u64) {
    dcb_set_register_direct(m, a, IT_SET_UCONFIG_REG)
}

/// `sceAgcDcbSetUcRegisterDirect(dcb, register)`.
pub fn hle_dcb_set_uc_register_direct(ctx: &mut HleContext, args: &[u64]) -> (r: u64)
    ensures
        final(ctx)@ == dcb_set_uc_register_direct(old(ctx)@, args@).0,
        r == dcb_set_uc_register_direct(old(ctx)@, args@).1,
{
    dcb_set_register_direct_run(ctx, args, IT_SET_UCONFIG_REG)
}

/// A packet that points at a register block.
pub open spec fn dcb_set_registers_indirect(m: Machine, a: Seq<u64>, reg: u32) -> (Machine, u64) {
    emit(
        m,
        arg(a, 0),
        seq![
            header(4, IT_NOP, reg),
            lo(arg(a, 2)),
            lo(arg(a, 1)),
            hi(arg(a, 1)),
        ],
    )
}

/// `sceAgcDcbSet{Cx,Sh,Uc}RegistersIndirect(dcb, registers, count)` with the
/// discriminator of the register space `reg`.
pub fn dcb_set_registers_indirect_run(ctx: &mut HleContext, args: &[u64], reg: u32) -> (r: u64)
    ensures
        final(ctx)@ == dcb_set_registers_indirect(old(ctx)@, args@, reg).0,
        r == dcb_set_registers_indirect(old(ctx)@, args@, reg).1,
{
    emit_packet(
        ctx,
        get_arg(args, 0),
        &[
            pm4(4, IT_NOP, reg),
            lo32(get_arg(args, 2)),
            lo32(get_arg(args, 1)),
            hi32(get_arg(args, 1)),
        ],
    )
}

/// A packet that points at a Cx register block.
pub open spec fn dcb_set_cx_regs_indirect(m: Machine, a: Seq<u64>) -> (Machine, u64) {
    dcb_set_registers_indirect(m, a, R_CX_REGS_INDIRECT)
}

/// `sceAgcDcbSetCxRegistersIndirect(dcb, registers, count)`.
pub fn hle_dcb_set_cx_regs_indirect(ctx: &mut HleContext, args: &[u64]) -> (r: u64)
    ensures
        final(ctx)@ == dcb_set_cx_regs_indirect(old(ctx)@, args@).0,
        r == dcb_set_cx_regs_indirect(old(ctx)@, args@).1,
{
    dcb_set_registers_indirect_run(ctx, args, R_CX_REGS_INDIRECT)
}

/// A packet that points at a Sh register block.
pub open spec fn dcb_set_sh_regs_indirect(m: Machine, a: Seq<u64>) -> (Machine, u64) {
    dcb_set_registers_indirect(m, a, R_SH_REGS_INDIRECT)
}

/// `sceAgcDcbSetShRegistersIndirect(dcb, registers, count)`.
pub fn hle_dcb_set_sh_regs_indirect(ctx: &mut HleContext, args: &[u64]) -> (r: u64)
    ensures
        final(ctx)@ == dcb_set_sh_regs_indirect(old(ctx)@, args@).0,
        r == dcb_set_sh_regs_indirect(old(ctx)@, args@).1,
{
    dcb_set_registers_indirect_run(ctx, args, R_SH_REGS_INDIRECT)
}

/// A packet that points at a Uc register block.
pub open spec fn dcb_set_uc_regs_indirect(m: Machine, a: Seq<u64>) -> (Machine, u64) {
    dcb_set_registers_indirect(m, a, R_UC_REGS_INDIRECT)
}

/// `sceAgcDcbSetUcRegistersIndirect(dcb, registers, count)`.
pub fn hle_dcb_set_uc_regs_indirect(ctx: &mut HleContext, args: &[u64]) -> (r: u64)
    ensures
        final(ctx)@ == dcb_set_uc_regs_indirect(old(ctx)@, args@).0,
        r == dcb_set_uc_regs_indirect(old(ctx)@, args@).1,
{
    dcb_set_registers_indirect_run(ctx, args, R_UC_REGS_INDIRECT)
}

/// Execute the next DWORDs only while the 4-byte aligned label is non-zero.
pub open spec fn dcb_cond_exec(m: Machine, a: Seq<u64>) -> (Machine, u64) {
    if arg(a, 1) == 0 || arg(a, 1) & 3 != 0 || arg(a, 2) > 0x3FFF {
        (m, 0)
    } else {
        emit(
            m,
            arg(a, 0),
            seq![
                header(5, IT_COND_EXEC, R_ZERO),
                lo(arg(a, 1)) & 0xFFFF_FFFC,
                hi(arg(a, 1)),
                0u32,
                lo(arg(a, 2)),
            ],
        )
    }
}

/// `sceAgc{Dcb,Acb}CondExec(cb, label, numDwords)`.
pub fn hle_dcb_cond_exec(ctx: &mut HleContext, args: &[u64]) -> (r: u64)
    ensures
        final(ctx)@ == dcb_cond_exec(old(ctx)@, args@).0,
        r == dcb_cond_exec(old(ctx)@, args@).1,
{
    if get_arg(args, 1) == 0 || get_arg(args, 1) & 3 != 0 || get_arg(args, 2) > 0x3FFF {
        return 0;
    }
    emit_packet(
        ctx,
        get_arg(args, 0),
        &[
            pm4(5, IT_COND_EXEC, R_ZERO),
            lo32(get_arg(args, 1)) & 0xFFFF_FFFC,
            hi32(get_arg(args, 1)),
            0u32,
            lo32(get_arg(args, 2)),
        ],
    )
}

/// A cache acquire; out-of-range fields are cut down to the hardware's width.
pub open spec fn dcb_acquire_mem(m: Machine, a: Seq<u64>) -> (Machine, u64) {
    emit(
        m,
        arg(a, 0),
        seq![
            header(8, IT_NOP, R_ACQUIRE_MEM),
            (((arg(a, 1) & 0xFF) as u32) << 31) | lo(arg(a, 2)),
            size_field(arg(a, 5)),
            0u32,
            (arg(a, 4) >> 8) as u32,
            0u32,
            lo(arg(a, 6)) / 40,
            lo(arg(a, 3)),
        ],
    )
}

/// `sceAgcDcbAcquireMem(dcb, engine, cbDbOp, gcrControl, baseAddress, sizeBytes, pollCycles)`.
pub fn hle_dcb_acquire_mem(ctx: &mut HleContext, args: &[u64]) -> (r: u64)
    ensures
        final(ctx)@ == dcb_acquire_mem(old(ctx)@, args@).0,
        r == dcb_acquire_mem(old(ctx)@, args@).1,
{
    emit_packet(
        ctx,
        get_arg(args, 0),
        &[
            pm4(8, IT_NOP, R_ACQUIRE_MEM),
            (((get_arg(args, 1) & 0xFF) as u32) << 31) | lo32(get_arg(args, 2)),
            acquire_size_field(get_arg(args, 5)),
            0u32,
            (get_arg(args, 4) >> 8) as u32,
            0u32,
            lo32(get_arg(args, 6)) / 40,
            lo32(get_arg(args, 3)),
        ],
    )
}

/// A compute-queue cache acquire. Base and size must be multiples of 256 below
/// 2^40; a size of all ones means everything.
pub open spec fn acb_acquire_mem(m: Machine, a: Seq<u64>) -> (Machine, u64) {
    let base: u64 = arg(a, 2);
    let size: u64 = arg(a, 3);
    if (size != u64::MAX && size & 0xFF != 0) || (size != u64::MAX && size >> 40 != 0) || base & 0xFF
        != 0 || base >> 40 != 0 {
        (m, 0)
    } else {
        emit(
            m,
            arg(a, 0),
            seq![
                header(8, IT_NOP, R_ACQUIRE_MEM),
                0x8000_0000u32,
                size_field(size),
                0u32,
                (base >> 8) as u32,
                0u32,
                lo(arg(a, 4)) / 40,
                lo(arg(a, 1)),
            ],
        )
    }
}

/// `sceAgcAcbAcquireMem(acb, gcrControl, baseAddress, sizeBytes, pollCycles)`.
pub fn hle_acb_acquire_mem(ctx: &mut HleContext, args: &[u64]) -> (r: u64)
    ensures
        final(ctx)@ == acb_acquire_mem(old(ctx)@, args@).0,
        r == acb_acquire_mem(old(ctx)@, args@).1,
{
    let base: u64 = get_arg(args, 2);
    let size: u64 = get_arg(args, 3);
    if (size != u64::MAX && size & 0xFF != 0) || (size != u64::MAX && size >> 40 != 0) || base & 0xFF
        != 0 || base >> 40 != 0 {
        return 0;
    }
    emit_packet(
        ctx,
        get_arg(args, 0),
        &[
            pm4(8, IT_NOP, R_ACQUIRE_MEM),
            0x8000_0000u32,
            acquire_size_field(size),
            0u32,
            (base >> 8) as u32,
            0u32,
            lo32(get_arg(args, 4)) / 40,
            lo32(get_arg(args, 1)),
        ],
    )
}

/// An indexed draw with arguments at an offset from the bound base.
pub open spec fn dcb_draw_index_indirect(m: Machine, a: Seq<u64>) -> (Machine, u64) {
    emit(
        m,
        arg(a, 0),
        seq![
            header(5, IT_DRAW_INDEX_INDIRECT, R_ZERO),
            lo(arg(a, 1)),
            0u32,
            0u32,
            lo(arg(a, 2)),
        ],
    )
}

/// `sceAgcDcbDrawIndexIndirect(dcb, dataOffset, modifier)`.
pub fn hle_dcb_draw_index_indirect(ctx: &mut HleContext, args: &[u64]) -> (r: u64)
    ensures
        final(ctx)@ == dcb_draw_index_indirect(old(ctx)@, args@).0,
        r == dcb_draw_index_indirect(old(ctx)@, args@).1,
{
    emit_packet(
        ctx,
        get_arg(args, 0),
        &[
            pm4(5, IT_DRAW_INDEX_INDIRECT, R_ZERO),
            lo32(get_arg(args, 1)),
            0u32,
            0u32,
            lo32(get_arg(args, 2)),
        ],
    )
}

/// A draw with arguments at an offset from the bound base.
pub open spec fn dcb_draw_indirect(m: Machine, a: Seq<u64>) -> (Machine, u64) {
    emit(
        m,
        arg(a, 0),
        seq![
            header(5, IT_DRAW_INDIRECT, R_ZERO),
            lo(arg(a, 1)),
            0u32,
            0u32,
            lo(arg(a, 2)),
        ],
    )
}

/// `sceAgcDcbDrawIndirect(dcb, dataOffset, modifier)`.
pub fn hle_dcb_draw_indirect(ctx: &mut HleContext, args: &[u64]) -> (r: u64)
    ensures
        final(ctx)@ == dcb_draw_indirect(old(ctx)@, args@).0,
        r == dcb_draw_indirect(old(ctx)@, args@).1,
{
    emit_packet(
        ctx,
        get_arg(args, 0),
        &[
            pm4(5, IT_DRAW_INDIRECT, R_ZERO),
            lo32(get_arg(args, 1)),
            0u32,
            0u32,
            lo32(get_arg(args, 2)),
        ],
    )
}

/// An unconditional chain into another command buffer.
pub open spec fn dcb_jump(m: Machine, a: Seq<u64>) -> (Machine, u64) {
    emit(
        m,
        arg(a, 0),
        seq![
            header(4, IT_INDIRECT_BUFFER, R_ZERO),
            lo(arg(a, 1)),
            ((arg(a, 1) >> 32) & 0xFFFF) as u32,
            lo(arg(a, 2)) & 0xF_FFFF,
        ],
    )
}

/// `sceAgcDcbJump(dcb, target, sizeDwords)`.
pub fn hle_dcb_jump(ctx: &mut HleContext, args: &[u64]) -> (r: u64)
    ensures
        final(ctx)@ == dcb_jump(old(ctx)@, args@).0,
        r == dcb_jump(old(ctx)@, args@).1,
{
    emit_packet(
        ctx,
        get_arg(args, 0),
        &[
            pm4(4, IT_INDIRECT_BUFFER, R_ZERO),
            lo32(get_arg(args, 1)),
            ((get_arg(args, 1) >> 32) & 0xFFFF) as u32,
            lo32(get_arg(args, 2)) & 0xF_FFFF,
        ],
    )
}

/// A conditional chain: compare a masked 64-bit value and go on in one of two buffers.
pub open spec fn cb_branch(m: Machine, a: Seq<u64>) -> (Machine, u64) {
    emit(
        m,
        arg(a, 0),
        seq![
            header(14, IT_INDIRECT_BUFFER, R_ZERO),
            ((arg(a, 1) & 0x3) as u32) | (((arg(a, 2) & 0x7) as u32) << 8),
            lo(arg(a, 3)) & 0xFFFF_FFF8,
            hi(arg(a, 3)),
            lo(arg(a, 4)),
            hi(arg(a, 4)),
            lo(arg(a, 5)),
            hi(arg(a, 5)),
            lo(arg(a, 7)) & 0xFFFF_FFFC,
            hi(arg(a, 7)),
            (lo(arg(a, 8)) & 0xF_FFFF) | (((arg(a, 6) & 0x3) as u32) << 28),
            lo(arg(a, 10)) & 0xFFFF_FFFC,
            hi(arg(a, 10)),
            (lo(arg(a, 11)) & 0xF_FFFF) | (((arg(a, 9) & 0x3) as u32) << 28),
        ],
    )
}

/// `sceAgcCbBranch(cb, mode, compareFunction, compareAddress, mask, reference,
/// cachePolicy1, buffer1, size1, cachePolicy2, buffer2, size2)`.
pub fn hle_cb_branch(ctx: &mut HleContext, args: &[u64]) -> (r: u64)
    ensures
        final(ctx)@ == cb_branch(old(ctx)@, args@).0,
        r == cb_branch(old(ctx)@, args@).1,
{
    emit_packet(
        ctx,
        get_arg(args, 0),
        &[
            pm4(14, IT_INDIRECT_BUFFER, R_ZERO),
            ((get_arg(args, 1) & 0x3) as u32) | (((get_arg(args, 2) & 0x7) as u32) << 8),
            lo32(get_arg(args, 3)) & 0xFFFF_FFF8,
            hi32(get_arg(args, 3)),
            lo32(get_arg(args, 4)),
            hi32(get_arg(args, 4)),
            lo32(get_arg(args, 5)),
            hi32(get_arg(args, 5)),
            lo32(get_arg(args, 7)) & 0xFFFF_FFFC,
            hi32(get_arg(args, 7)),
            (lo32(get_arg(args, 8)) & 0xF_FFFF) | (((get_arg(args, 6) & 0x3) as u32) << 28),
            lo32(get_arg(args, 10)) & 0xFFFF_FFFC,
            hi32(get_arg(args, 10)),
            (lo32(get_arg(args, 11)) & 0xF_FFFF) | (((get_arg(args, 9) & 0x3) as u32) << 28),
        ],
    )
}

/// A two-DWORD NOP in place of a parser stall; sizes above one are refused.
pub open spec fn dcb_stall_command_buffer_parser(m: Machine, a: Seq<u64>) -> (Machine, u64) {
    if arg(a, 1) & 0xFF > 1 {
        (m, 0)
    } else {
        emit(
            m,
            arg(a, 0),
            seq![
                header(2, IT_NOP, R_ZERO),
                0u32,
            ],
        )
    }
}

/// `sceAgcDcbStallCommandBufferParser(dcb, size, address, reference)`.
pub fn hle_dcb_stall_command_buffer_parser(ctx: &mut HleContext, args: &[u64]) -> (r: u64)
    ensures
        final(ctx)@ == dcb_stall_command_buffer_parser(old(ctx)@, args@).0,
        r == dcb_stall_command_buffer_parser(old(ctx)@, args@).1,
{
    if get_arg(args, 1) & 0xFF > 1 {
        return 0;
    }
    emit_packet(
        ctx,
        get_arg(args, 0),
        &[
            pm4(2, IT_NOP, R_ZERO),
            0u32,
        ],
    )
}

/// A request for level-of-detail statistics.
pub open spec fn dcb_get_lod_stats(m: Machine, a: Seq<u64>) -> (Machine, u64) {
    emit(
        m,
        arg(a, 0),
        seq![
            header(5, IT_GET_LOD_STATS, R_ZERO),
            lo(arg(a, 3)),
            lo(arg(a, 2)) & !0x3Fu32,
            hi(arg(a, 2)),
            (((arg(a, 1) & 0x3) as u32) << 28) | (((arg(a, 6) & 0x1) as u32) << 19) | (((arg(a, 5) & 0x1) as u32) << 18)
                | (((arg(a, 4) & 0xFF) as u32) << 10) | (((arg(a, 7) & 0xFF) as u32) << 2),
        ],
    )
}

/// `sceAgcDcbGetLodStats(dcb, cachePolicy, destination, control, counterMask,
/// resetCounters, enable, counterSelect)`.
pub fn hle_dcb_get_lod_stats(ctx: &mut HleContext, args: &[u64]) -> (r: u64)
    ensures
        final(ctx)@ == dcb_get_lod_stats(old(ctx)@, args@).0,
        r == dcb_get_lod_stats(old(ctx)@, args@).1,
{
    emit_packet(
        ctx,
        get_arg(args, 0),
        &[
            pm4(5, IT_GET_LOD_STATS, R_ZERO),
            lo32(get_arg(args, 3)),
            lo32(get_arg(args, 2)) & !0x3Fu32,
            hi32(get_arg(args, 2)),
            (((get_arg(args, 1) & 0x3) as u32) << 28) | (((get_arg(args, 6) & 0x1) as u32) << 19) | (((get_arg(args, 5) & 0x1) as u32) << 18)
                | (((get_arg(args, 4) & 0xFF) as u32) << 10) | (((get_arg(args, 7) & 0xFF) as u32) << 2),
        ],
    )
}

/// An EVENT_WRITE packet; the address must be null.
pub open spec fn dcb_event_write(m: Machine, a: Seq<u64>) -> (Machine, u64) {
    if arg(a, 1) & 0xFF > 0x3F || arg(a, 2) != 0 {
        (m, 0)
    } else {
        emit(
            m,
            arg(a, 0),
            seq![
                header(2, IT_EVENT_WRITE, R_ZERO),
                (arg(a, 1) & 0xFF) as u32,
            ],
        )
    }
}

/// `sceAgcDcbEventWrite(dcb, eventType, eventAddress)`.
pub fn hle_dcb_event_write(ctx: &mut HleContext, args: &[u64]) -> (r: u64)
    ensures
        final(ctx)@ == dcb_event_write(old(ctx)@, args@).0,
        r == dcb_event_write(old(ctx)@, args@).1,
{
    if get_arg(args, 1) & 0xFF > 0x3F || get_arg(args, 2) != 0 {
        return 0;
    }
    emit_packet(
        ctx,
        get_arg(args, 0),
        &[
            pm4(2, IT_EVENT_WRITE, R_ZERO),
            (get_arg(args, 1) & 0xFF) as u32,
        ],
    )
}

/// A RELEASE_MEM packet: at the end of the pipe, write data and raise an interrupt.
pub open spec fn cb_release_mem(m: Machine, a: Seq<u64>) -> (Machine, u64) {
    if arg(a, 3) & 0xFF > 1 || arg(a, 6) & 0xFF > 3 || arg(a, 8) & 0xFFFF != 0 || arg(a, 9) & 0xFFFF > 2
        || arg(a, 10) & 0xFF > 3 {
        (m, 0)
    } else {
        emit(
            m,
            arg(a, 0),
            seq![
                header(8, IT_NOP, R_RELEASE_MEM),
                ((arg(a, 1) & 0xFF) as u32) | (((arg(a, 4) & 0xFF) as u32) << 8),
                ((arg(a, 2) & 0xFFFF) as u32) | (((arg(a, 6) & 0xFF) as u32) << 16) | (((arg(a, 10) & 0xFF) as u32)
                    << 24),
                lo(arg(a, 5)),
                hi(arg(a, 5)),
                lo(arg(a, 7)),
                hi(arg(a, 7)),
                lo(arg(a, 11)),
            ],
        )
    }
}

/// `sceAgcCbReleaseMem(cb, action, gcrControl, destination, cachePolicy,
/// address, dataSelection, data, gdsOffset, gdsSize, interrupt,
/// interruptContextId)`.
pub fn hle_cb_release_mem(ctx: &mut HleContext, args: &[u64]) -> (r: u64)
    ensures
        final(ctx)@ == cb_release_mem(old(ctx)@, args@).0,
        r == cb_release_mem(old(ctx)@, args@).1,
{
    if get_arg(args, 3) & 0xFF > 1 || get_arg(args, 6) & 0xFF > 3 || get_arg(args, 8) & 0xFFFF != 0 || get_arg(args, 9) & 0xFFFF > 2
        || get_arg(args, 10) & 0xFF > 3 {
        return 0;
    }
    emit_packet(
        ctx,
        get_arg(args, 0),
        &[
            pm4(8, IT_NOP, R_RELEASE_MEM),
            ((get_arg(args, 1) & 0xFF) as u32) | (((get_arg(args, 4) & 0xFF) as u32) << 8),
            ((get_arg(args, 2) & 0xFFFF) as u32) | (((get_arg(args, 6) & 0xFF) as u32) << 16) | (((get_arg(args, 10) & 0xFF) as u32)
                << 24),
            lo32(get_arg(args, 5)),
            hi32(get_arg(args, 5)),
            lo32(get_arg(args, 7)),
            hi32(get_arg(args, 7)),
            lo32(get_arg(args, 11)),
        ],
    )
}

/// A flip request in the command stream.
pub open spec fn dcb_set_flip(m: Machine, a: Seq<u64>) -> (Machine, u64) {
    emit(
        m,
        arg(a, 0),
        seq![
            header(6, IT_NOP, R_FLIP),
            lo(arg(a, 1)),
            lo(arg(a, 2)),
            lo(arg(a, 3)),
            lo(arg(a, 4)),
            hi(arg(a, 4)),
        ],
    )
}

/// `sceAgcDcbSetFlip(cb, videoOutHandle, displayBufferIndex, flipMode, flipArg)`.
pub fn hle_dcb_set_flip(ctx: &mut HleContext, args: &[u64]) -> (r: u64)
    ensures
        final(ctx)@ == dcb_set_flip(old(ctx)@, args@).0,
        r == dcb_set_flip(old(ctx)@, args@).1,
{
    emit_packet(
        ctx,
        get_arg(args, 0),
        &[
            pm4(6, IT_NOP, R_FLIP),
            lo32(get_arg(args, 1)),
            lo32(get_arg(args, 2)),
            lo32(get_arg(args, 3)),
            lo32(get_arg(args, 4)),
            hi32(get_arg(args, 4)),
        ],
    )
}

/// Several draws with arguments at an offset from the bound base.
pub open spec fn dcb_draw_indirect_multi_op(m: Machine, a: Seq<u64>, op: u32) -> (Machine, u64) {
    emit(
        m,
        arg(a, 0),
        seq![
            header(9, op, R_ZERO),
            lo(arg(a, 1)),
            0u32,
            0u32,
            lo(arg(a, 2)),
            lo(arg(a, 4)),
            hi(arg(a, 4)),
            lo(arg(a, 3)),
            lo(arg(a, 5)),
        ],
    )
}

/// `sceAgcDcbDraw{Index,}IndirectMulti(dcb, dataOffset, drawCount, stride,
/// countAddress, modifier)` with the opcode `op`.
pub fn dcb_draw_indirect_multi_op_run(ctx: &mut HleContext, args: &[u64], op: u32) -> (r: u64)
    ensures
        final(ctx)@ == dcb_draw_indirect_multi_op(old(ctx)@, args@, op).0,
        r == dcb_draw_indirect_multi_op(old(ctx)@, args@, op).1,
{
    emit_packet(
        ctx,
        get_arg(args, 0),
        &[
            pm4(9, op, R_ZERO),
            lo32(get_arg(args, 1)),
            0u32,
            0u32,
            lo32(get_arg(args, 2)),
            lo32(get_arg(args, 4)),
            hi32(get_arg(args, 4)),
            lo32(get_arg(args, 3)),
            lo32(get_arg(args, 5)),
        ],
    )
}

/// Several indexed indirect draws.
pub open spec fn dcb_draw_index_indirect_multi(m: Machine, a: Seq<u64>) -> (Machine, u64) {
    dcb_draw_indirect_multi_op(m, a, IT_DRAW_INDEX_INDIRECT_MULTI)
}

/// `sceAgcDcbDrawIndexIndirectMulti(dcb, dataOffset, drawCount, stride, countAddress, modifier)`.
pub fn hle_dcb_draw_index_indirect_multi(ctx: &mut HleContext, args: &[u64]) -> (r: u64)
    ensures
        final(ctx)@ == dcb_draw_index_indirect_multi(old(ctx)@, args@).0,
        r == dcb_draw_index_indirect_multi(old(ctx)@, args@).1,
{
    dcb_draw_indirect_multi_op_run(ctx, args, IT_DRAW_INDEX_INDIRECT_MULTI)
}

/// Several indirect draws.
pub open spec fn dcb_draw_indirect_multi(m: Machine, a: Seq<u64>) -> (Machine, u64) {
    dcb_draw_indirect_multi_op(m, a, IT_DRAW_INDIRECT_MULTI)
}

/// `sceAgcDcbDrawIndirectMulti(dcb, dataOffset, drawCount, stride, countAddress, modifier)`.
pub fn hle_dcb_draw_indirect_multi(ctx: &mut HleContext, args: &[u64]) -> (r: u64)
    ensures
        final(ctx)@ == dcb_draw_indirect_multi(old(ctx)@, args@).0,
        r == dcb_draw_indirect_multi(old(ctx)@, args@).1,
{
    dcb_draw_indirect_multi_op_run(ctx, args, IT_DRAW_INDIRECT_MULTI)
}

/// A COPY_DATA packet.
pub open spec fn dcb_copy_data(m: Machine, a: Seq<u64>) -> (Machine, u64) {
    emit(
        m,
        arg(a, 0),
        seq![
            header(6, IT_COPY_DATA, R_ZERO),
            lo(arg(a, 1)),
            lo(arg(a, 2)),
            hi(arg(a, 2)),
            lo(arg(a, 3)),
            hi(arg(a, 3)),
        ],
    )
}

/// `sceAgcDcbCopyData(dcb, control, source, destination)`.
pub fn hle_dcb_copy_data(ctx: &mut HleContext, args: &[u64]) -> (r: u64)
    ensures
        final(ctx)@ == dcb_copy_data(old(ctx)@, args@).0,
        r == dcb_copy_data(old(ctx)@, args@).1,
{
    emit_packet(
        ctx,
        get_arg(args, 0),
        &[
            pm4(6, IT_COPY_DATA, R_ZERO),
            lo32(get_arg(args, 1)),
            lo32(get_arg(args, 2)),
            hi32(get_arg(args, 2)),
            lo32(get_arg(args, 3)),
            hi32(get_arg(args, 3)),
        ],
    )
}

/// `sceAgcAcbCopyData(acb, control, source, destination)`: the packet that
/// [`hle_dcb_copy_data`] builds.
pub fn hle_acb_copy_data(ctx: &mut HleContext, args: &[u64]) -> (r: u64)
    ensures
        final(ctx)@ == dcb_copy_data(old(ctx)@, args@).0,
        r == dcb_copy_data(old(ctx)@, args@).1,
{
    hle_dcb_copy_data(ctx, args)
}

/// A SET_PREDICATION packet.
pub open spec fn dcb_set_predication(m: Machine, a: Seq<u64>) -> (Machine, u64) {
    emit(
        m,
        arg(a, 0),
        seq![
            header(4, IT_SET_PREDICATION, R_ZERO),
            lo(arg(a, 1)),
            hi(arg(a, 1)),
            lo(arg(a, 2)),
        ],
    )
}

/// `sceAgcDcbSetPredication(dcb, conditionAddress, control)`.
pub fn hle_dcb_set_predication(ctx: &mut HleContext, args: &[u64]) -> (r: u64)
    ensures
        final(ctx)@ == dcb_set_predication(old(ctx)@, args@).0,
        r == dcb_set_predication(old(ctx)@, args@).1,
{
    emit_packet(
        ctx,
        get_arg(args, 0),
        &[
            pm4(4, IT_SET_PREDICATION, R_ZERO),
            lo32(get_arg(args, 1)),
            hi32(get_arg(args, 1)),
            lo32(get_arg(args, 2)),
        ],
    )
}

/// A fixed three-DWORD packet with the low bits of its arguments folded in.
pub open spec fn unknown_krz_wek_v120(m: Machine, a: Seq<u64>) -> (Machine, u64) {
    emit(
        m,
        arg(a, 0),
        seq![
            0xC001_7A00u32,
            0x2000_0243u32,
            0x400u32 | (lo(arg(a, 1)) & 0x3) | ((lo(arg(a, 2)) & 0x3) << 6) | ((lo(arg(a, 3)) & 0x1) << 14),
        ],
    )
}

/// `sceAgcUnknownKRzWekV120(dcb, arg1, arg2, arg3)`.
pub fn hle_unknown_krz_wek_v120(ctx: &mut HleContext, args: &[u64]) -> (r: u64)
    ensures
        final(ctx)@ == unknown_krz_wek_v120(old(ctx)@, args@).0,
        r == unknown_krz_wek_v120(old(ctx)@, args@).1,
{
    emit_packet(
        ctx,
        get_arg(args, 0),
        &[
            0xC001_7A00u32,
            0x2000_0243u32,
            0x400u32 | (lo32(get_arg(args, 1)) & 0x3) | ((lo32(get_arg(args, 2)) & 0x3) << 6) | ((lo32(get_arg(args, 3)) & 0x1) << 14),
        ],
    )
}

/// A rewind point with its stall bit in bit 31.
pub open spec fn dcb_rewind(m: Machine, a: Seq<u64>) -> (Machine, u64) {
    emit(
        m,
        arg(a, 0),
        seq![
            header(2, IT_REWIND, R_ZERO),
            ((arg(a, 1) & 0x1) as u32) << 31,
        ],
    )
}

/// `sceAgc{Dcb,Acb}Rewind(cb, initialState)`.
pub fn hle_dcb_rewind(ctx: &mut HleContext, args: &[u64]) -> (r: u64)
    ensures
        final(ctx)@ == dcb_rewind(old(ctx)@, args@).0,
        r == dcb_rewind(old(ctx)@, args@).1,
{
    emit_packet(
        ctx,
        get_arg(args, 0),
        &[
            pm4(2, IT_REWIND, R_ZERO),
            ((get_arg(args, 1) & 0x1) as u32) << 31,
        ],
    )
}

/// A marker that a workload of a stream has completed, with the mask that clears it.
pub open spec fn dcb_set_workload_complete(m: Machine, a: Seq<u64>) -> (Machine, u64) {
    if arg(a, 2) > WORKLOAD_ID_MAX || arg(a, 1) < WORKLOAD_STREAM_MIN_ID || arg(a, 1) > WORKLOAD_STREAM_MAX_ID {
        (m, 0)
    } else {
        emit(
            m,
            arg(a, 0),
            seq![
                header(12, IT_NOP, R_ZERO),
                lo(arg(a, 1)),
                lo(arg(a, 2)),
                lo(!(1u64 << arg(a, 2))),
                hi(!(1u64 << arg(a, 2))),
                0u32,
                0u32,
                0u32,
                0u32,
                0u32,
                0u32,
                0u32,
            ],
        )
    }
}

/// `sceAgc{Dcb,Acb}SetWorkloadComplete(cb, streamId, workloadId)`.
pub fn hle_dcb_set_workload_complete(ctx: &mut HleContext, args: &[u64]) -> (r: u64)
    ensures
        final(ctx)@ == dcb_set_workload_complete(old(ctx)@, args@).0,
        r == dcb_set_workload_complete(old(ctx)@, args@).1,
{
    if get_arg(args, 2) > WORKLOAD_ID_MAX || get_arg(args, 1) < WORKLOAD_STREAM_MIN_ID || get_arg(args, 1) > WORKLOAD_STREAM_MAX_ID {
        return 0;
    }
    emit_packet(
        ctx,
        get_arg(args, 0),
        &[
            pm4(12, IT_NOP, R_ZERO),
            lo32(get_arg(args, 1)),
            lo32(get_arg(args, 2)),
            lo32(!(1u64 << get_arg(args, 2))),
            hi32(!(1u64 << get_arg(args, 2))),
            0u32,
            0u32,
            0u32,
            0u32,
            0u32,
            0u32,
            0u32,
        ],
    )
}

/// A marker that a workload stream is inactive.
pub open spec fn dcb_set_workload_stream_inactive(m: Machine, a: Seq<u64>) -> (Machine, u64) {
    if arg(a, 1) < WORKLOAD_STREAM_MIN_ID || arg(a, 1) > WORKLOAD_STREAM_MAX_ID {
        (m, 0)
    } else {
        emit(
            m,
            arg(a, 0),
            seq![
                header(2, IT_NOP, R_ZERO),
                lo(arg(a, 1)),
            ],
        )
    }
}

/// `sceAgc{Dcb,Acb}SetWorkloadStreamInactive(cb, streamId)`.
pub fn hle_dcb_set_workload_stream_inactive(ctx: &mut HleContext, args: &[u64]) -> (r: u64)
    ensures
        final(ctx)@ == dcb_set_workload_stream_inactive(old(ctx)@, args@).0,
        r == dcb_set_workload_stream_inactive(old(ctx)@, args@).1,
{
    if get_arg(args, 1) < WORKLOAD_STREAM_MIN_ID || get_arg(args, 1) > WORKLOAD_STREAM_MAX_ID {
        return 0;
    }
    emit_packet(
        ctx,
        get_arg(args, 0),
        &[
            pm4(2, IT_NOP, R_ZERO),
            lo32(get_arg(args, 1)),
        ],
    )
}

/// A multi-instanced indexed draw; the index address must be even and both addresses non-null.
pub open spec fn dcb_draw_index_multi_instanced(m: Machine, a: Seq<u64>) -> (Machine, u64) {
    if arg(a, 2) == 0 || arg(a, 3) == 0 || arg(a, 2) & 1 != 0 {
        (m, 0)
    } else {
        emit(
            m,
            arg(a, 0),
            seq![
                header(9, IT_DISPATCH_DRAW_PREAMBLE, R_ZERO),
                lo(arg(a, 1)),
                lo(arg(a, 2)),
                hi(arg(a, 2)),
                instances_or_one(lo(arg(a, 4))),
                lo(arg(a, 3)),
                hi(arg(a, 3)),
                lo(arg(a, 4)),
                draw_initiator(arg(a, 5)) | 0x80,
            ],
        )
    }
}

/// `sceAgcDcbDrawIndexMultiInstanced(dcb, indexCount, indexAddress, objectIds,
/// instanceCount, modifier)`.
pub fn hle_dcb_draw_index_multi_instanced(ctx: &mut HleContext, args: &[u64]) -> (r: u64)
    ensures
        final(ctx)@ == dcb_draw_index_multi_instanced(old(ctx)@, args@).0,
        r == dcb_draw_index_multi_instanced(old(ctx)@, args@).1,
{
    if get_arg(args, 2) == 0 || get_arg(args, 3) == 0 || get_arg(args, 2) & 1 != 0 {
        return 0;
    }
    emit_packet(
        ctx,
        get_arg(args, 0),
        &[
            pm4(9, IT_DISPATCH_DRAW_PREAMBLE, R_ZERO),
            lo32(get_arg(args, 1)),
            lo32(get_arg(args, 2)),
            hi32(get_arg(args, 2)),
            at_least_one(lo32(get_arg(args, 4))),
            lo32(get_arg(args, 3)),
            hi32(get_arg(args, 3)),
            lo32(get_arg(args, 4)),
            draw_index_initiator(get_arg(args, 5)) | 0x80,
        ],
    )
}

/// A five-DWORD NOP in place of a translation prefetch.
pub open spec fn prime_utcl2(m: Machine, a: Seq<u64>) -> (Machine, u64) {
    emit(
        m,
        arg(a, 0),
        seq![
            header(5, IT_NOP, R_ZERO),
            0u32,
            0u32,
            0u32,
            0u32,
        ],
    )
}

/// `sceAgc{Dcb,Acb}PrimeUtcl2(cb, ...)`.
pub fn hle_prime_utcl2(ctx: &mut HleContext, args: &[u64]) -> (r: u64)
    ensures
        final(ctx)@ == prime_utcl2(old(ctx)@, args@).0,
        r == prime_utcl2(old(ctx)@, args@).1,
{
    emit_packet(
        ctx,
        get_arg(args, 0),
        &[
            pm4(5, IT_NOP, R_ZERO),
            0u32,
            0u32,
            0u32,
            0u32,
        ],
    )
}

/// The words of a wait on memory: the 32-bit form for size zero, the 64-bit form
/// otherwise.
pub open spec fn wait_mem_words(
    size: u32,
    control: u32,
    address: u64,
    reference: u64,
    mask: u64,
    poll: u32,
) -> Seq<u32> {
    if size == 0 {
        seq![
            header(6, IT_NOP, R_WAIT_MEM32),
            lo(address),
            hi(address),
            lo(mask),
            control,
            lo(reference),
        ]
    } else {
        seq![
            header(9, IT_NOP, R_WAIT_MEM64),
            lo(address),
            hi(address),
            lo(mask),
            hi(mask),
            lo(reference),
            hi(reference),
            control,
            poll / 40,
        ]
    }
}

/// The words of a standard register-or-memory wait.
pub open spec fn wait_reg_words(
    control: u32,
    address: u64,
    reference: u64,
    mask: u64,
    poll: u32,
) -> Seq<u32> {
    seq![
        header(7, IT_WAIT_REG_MEM, R_ZERO),
        control,
        lo(address),
        hi(address),
        lo(reference),
        lo(mask),
        poll / 40,
    ]
}

/// Build a wait on memory.
pub fn emit_wait_mem(
    ctx: &mut HleContext,
    cb: u64,
    size: u32,
    control: u32,
    address: u64,
    reference: u64,
    mask: u64,
    poll: u32,
) -> (r: u64)
    ensures
        final(ctx)@ == emit(
            old(ctx)@,
            cb,
            wait_mem_words(size, control, address, reference, mask, poll),
        ).0,
        r == emit(old(ctx)@, cb, wait_mem_words(size, control, address, reference, mask, poll)).1,
{
    if size == 0 {
        emit_packet(
            ctx,
            cb,
            &[
                pm4(6, IT_NOP, R_WAIT_MEM32),
                lo32(address),
                hi32(address),
                lo32(mask),
                control,
                lo32(reference),
            ],
        )
    } else {
        emit_packet(
            ctx,
            cb,
            &[
                pm4(9, IT_NOP, R_WAIT_MEM64),
                lo32(address),
                hi32(address),
                lo32(mask),
                hi32(mask),
                lo32(reference),
                hi32(reference),
                control,
                poll / 40,
            ],
        )
    }
}

/// A wait for a memory value. Operations 2 and 3 take the standard form, the
/// others the 32- or 64-bit memory form.
pub open spec fn dcb_wait_reg_mem(m: Machine, a: Seq<u64>) -> (Machine, u64) {
    let size = (arg(a, 1) & 0xFF) as u32;
    let compare = (arg(a, 2) & 0xFF) as u32;
    let operation = (arg(a, 3) & 0xFF) as u32;
    let cache_policy = (arg(a, 4) & 0xFF) as u32;
    if size > 1 || compare > 7 || operation > 4 || cache_policy > 3 {
        (m, 0)
    } else if operation == 2 || operation == 3 {
        emit(
            m,
            arg(a, 0),
            wait_reg_words(
                compare | ((operation & 1) << 8),
                arg(a, 5),
                arg(a, 6),
                arg(a, 7),
                lo(arg(a, 8)),
            ),
        )
    } else {
        emit(
            m,
            arg(a, 0),
            wait_mem_words(
                size,
                compare | (operation << 8),
                arg(a, 5),
                arg(a, 6),
                arg(a, 7),
                lo(arg(a, 8)),
            ),
        )
    }
}

/// `sceAgcDcbWaitRegMem(dcb, size, compareFunction, operation, cachePolicy,
/// address, reference, mask, pollCycles)`.
pub fn hle_dcb_wait_reg_mem(ctx: &mut HleContext, args: &[u64]) -> (r: u64)
    ensures
        final(ctx)@ == dcb_wait_reg_mem(old(ctx)@, args@).0,
        r == dcb_wait_reg_mem(old(ctx)@, args@).1,
{
    let size: u32 = (get_arg(args, 1) & 0xFF) as u32;
    let compare: u32 = (get_arg(args, 2) & 0xFF) as u32;
    let operation: u32 = (get_arg(args, 3) & 0xFF) as u32;
    let cache_policy: u32 = (get_arg(args, 4) & 0xFF) as u32;
    let cb: u64 = get_arg(args, 0);
    let address: u64 = get_arg(args, 5);
    let reference: u64 = get_arg(args, 6);
    let mask: u64 = get_arg(args, 7);
    let poll: u32 = lo32(get_arg(args, 8));
    if size > 1 || compare > 7 || operation > 4 || cache_policy > 3 {
        return 0;
    }
    if operation == 2 || operation == 3 {
        emit_packet(
            ctx,
            cb,
            &[
                pm4(7, IT_WAIT_REG_MEM, R_ZERO),
                compare | ((operation & 1) << 8),
                lo32(address),
                hi32(address),
                lo32(reference),
                lo32(mask),
                poll / 40,
            ],
        )
    } else {
        emit_wait_mem(ctx, cb, size, compare | (operation << 8), address, reference, mask, poll)
    }
}

/// A compute-queue wait for a memory value.
pub open spec fn acb_wait_reg_mem(m: Machine, a: Seq<u64>) -> (Machine, u64) {
    let size = (arg(a, 1) & 0xFF) as u32;
    let compare = (arg(a, 2) & 0xFF) as u32;
    if size > 1 || compare > 7 || (arg(a, 3) & 0xFF) > 3 {
        (m, 0)
    } else {
        emit(
            m,
            arg(a, 0),
            wait_mem_words(size, compare, arg(a, 4), arg(a, 5), arg(a, 6), lo(arg(a, 7))),
        )
    }
}

/// `sceAgcAcbWaitRegMem(acb, size, compareFunction, cachePolicy, address,
/// reference, mask, pollCycles)`.
pub fn hle_acb_wait_reg_mem(ctx: &mut HleContext, args: &[u64]) -> (r: u64)
    ensures
        final(ctx)@ == acb_wait_reg_mem(old(ctx)@, args@).0,
        r == acb_wait_reg_mem(old(ctx)@, args@).1,
{
    let size: u32 = (get_arg(args, 1) & 0xFF) as u32;
    let compare: u32 = (get_arg(args, 2) & 0xFF) as u32;
    if size > 1 || compare > 7 || (get_arg(args, 3) & 0xFF) > 3 {
        return 0;
    }
    emit_wait_mem(
        ctx,
        get_arg(args, 0),
        size,
        compare,
        get_arg(args, 4),
        get_arg(args, 5),
        get_arg(args, 6),
        lo32(get_arg(args, 7)),
    )
}

/// A compute-queue EVENT_WRITE packet: the two address-carrying event types
/// take four DWORDs, the others two.
pub open spec fn acb_event_write(m: Machine, a: Seq<u64>) -> (Machine, u64) {
    let event_type = (arg(a, 1) & 0xFF) as u32;
    if event_type >= 0x40 {
        (m, 0)
    } else if (event_type & !1u32) == 0x38 {
        emit(
            m,
            arg(a, 0),
            seq![
                header(4, IT_EVENT_WRITE, R_ZERO),
                event_type | 0x100,
                lo(arg(a, 2)) & !7u32,
                hi(arg(a, 2)),
            ],
        )
    } else {
        emit(m, arg(a, 0), seq![header(2, IT_EVENT_WRITE, R_ZERO), event_type & 0x3F])
    }
}

/// `sceAgcAcbEventWrite(acb, eventType, eventAddress)`.
pub fn hle_acb_event_write(ctx: &mut HleContext, args: &[u64]) -> (r: u64)
    ensures
        final(ctx)@ == acb_event_write(old(ctx)@, args@).0,
        r == acb_event_write(old(ctx)@, args@).1,
{
    let event_type: u32 = (get_arg(args, 1) & 0xFF) as u32;
    let address: u64 = get_arg(args, 2);
    if event_type >= 0x40 {
        return 0;
    }
    if (event_type & !1u32) == 0x38 {
        emit_packet(
            ctx,
            get_arg(args, 0),
            &[
                pm4(4, IT_EVENT_WRITE, R_ZERO),
                event_type | 0x100,
                lo32(address) & !7u32,
                hi32(address),
            ],
        )
    } else {
        emit_packet(ctx, get_arg(args, 0), &[pm4(2, IT_EVENT_WRITE, R_ZERO), event_type & 0x3F])
    }
}

} // verus!
