//! How much room packets take, and exports without an effect.
//!
//! Sizes are in bytes unless said otherwise.
use vstd::prelude::*;
use crate::agc::packet::{lo, lo32};
use crate::context::{arg, get_arg, OK, SCE_ERROR_INVALID_ARGUMENT};

verus! {

/// `sceAgcCbDispatchGetSize()`: a direct dispatch.
pub fn hle_cb_dispatch_get_size() -> (r: u64)
    ensures
        r == 20,
{
    20
}

/// `sceAgc{Dcb,Acb}AcquireMemGetSize()`: a cache acquire.
pub fn hle_acquire_mem_get_size() -> (r: u64)
    ensures
        r == 32,
{
    32
}

/// `sceAgc{Dcb,Acb}JumpGetSize()`: an unconditional chain.
pub fn hle_dcb_jump_get_size() -> (r: u64)
    ensures
        r == 16,
{
    16
}

/// `sceAgc{Dcb,Acb}RewindGetSize()`: a rewind point.
pub fn hle_dcb_rewind_get_size() -> (r: u64)
    ensures
        r == 8,
{
    8
}

/// `sceAgcCbQueueEndOfPipeActionGetSize()`: an end-of-pipe action.
pub fn hle_queue_eop_action_get_size() -> (r: u64)
    ensures
        r == 32,
{
    32
}

/// `sceAgc{Dcb,Acb}DmaDataGetSize()`: a DMA packet; the compute form is one DWORD shorter.
pub fn hle_dma_data_get_size() -> (r: u64)
    ensures
        r == 32,
{
    32
}

/// `sceAgcDcbDrawIndexIndirectGetSize()`: an indirect indexed draw.
pub fn hle_dcb_draw_index_indirect_get_size() -> (r: u64)
    ensures
        r == 20,
{
    20
}

/// `sceAgcDcbSetIndexCountGetSize()`: an index count, with room to spare.
pub fn hle_dcb_set_index_count_get_size() -> (r: u64)
    ensures
        r == 28,
{
    28
}

/// `sceAgcDcbStallCommandBufferParserGetSize()`: a parser stall.
pub fn hle_dcb_stall_command_buffer_parser_get_size() -> (r: u64)
    ensures
        r == 8,
{
    8
}

/// `sceAgc...GetSize()`: a packet of 2 DWORDs.
pub fn hle_get_size_2_dwords() -> (r: u64)
    ensures
        r == 8,
{
    8
}

/// `sceAgc...GetSize()`: a packet of 3 DWORDs.
pub fn hle_get_size_3_dwords() -> (r: u64)
    ensures
        r == 12,
{
    12
}

/// `sceAgc...GetSize()`: a packet of 4 DWORDs.
pub fn hle_get_size_4_dwords() -> (r: u64)
    ensures
        r == 16,
{
    16
}

/// `sceAgc...GetSize()`: a packet of 5 DWORDs.
pub fn hle_get_size_5_dwords() -> (r: u64)
    ensures
        r == 20,
{
    20
}

/// `sceAgc...GetSize()`: a packet of 6 DWORDs.
pub fn hle_get_size_6_dwords() -> (r: u64)
    ensures
        r == 24,
{
    24
}

/// `sceAgc...GetSize()`: a packet of 7 DWORDs.
pub fn hle_get_size_7_dwords() -> (r: u64)
    ensures
        r == 28,
{
    28
}

/// `sceAgc...GetSize()`: a packet of 9 DWORDs.
pub fn hle_get_size_9_dwords() -> (r: u64)
    ensures
        r == 36,
{
    36
}

/// `sceAgc...GetSize()`: packets of 10 DWORDs together.
pub fn hle_get_size_10_dwords() -> (r: u64)
    ensures
        r == 40,
{
    40
}

/// `sceAgc{Dcb,Acb}EventWriteGetSize()`: an event with an address; one without takes half.
pub fn hle_event_write_get_size() -> (r: u64)
    ensures
        r == 16,
{
    16
}

/// `sceAgc{Dcb,Acb}AtomicMemGetSize()`: a memory atomic.
pub fn hle_atomic_mem_get_size() -> (r: u64)
    ensures
        r == 36,
{
    36
}

/// `sceAgc{Dcb,Acb}AtomicGdsGetSize()`: a data-share atomic, bounded by the memory form.
pub fn hle_atomic_gds_get_size() -> (r: u64)
    ensures
        r == 36,
{
    36
}

/// `sceAgc{Dcb,Acb}PrimeUtcl2GetSize()`: a translation prefetch.
pub fn hle_prime_utcl2_get_size() -> (r: u64)
    ensures
        r == 20,
{
    20
}

/// `sceAgcCbBranchGetSize()`: a conditional chain.
pub fn hle_cb_branch_get_size() -> (r: u64)
    ensures
        r == 56,
{
    56
}

/// `sceAgcCbCondWriteGetSize()`: a conditional write.
pub fn hle_cb_cond_write_get_size() -> (r: u64)
    ensures
        r == 36,
{
    36
}

/// `sceAgcDcbContextStateOpGetSize()`: a context-state operation.
pub fn hle_dcb_context_state_op_get_size() -> (r: u64)
    ensures
        r == 8,
{
    8
}

/// The size of a NOP of the given length.
pub open spec fn nop_size(a: Seq<u64>) -> u64 {
    (lo(arg(a, 0)) * 4) as u64
}

/// `sceAgcCbNopGetSize(dwordCount)`.
pub fn hle_cb_nop_get_size(args: &[u64]) -> (r: u64)
    ensures
        r == nop_size(args@),
{
    lo32(get_arg(args, 0)) as u64 * 4
}

/// The size of a statistics request: it grows with the counters and never falls below the packet.
pub open spec fn lod_stats_size(a: Seq<u64>) -> u64 {
    let n = 0x10 + lo(arg(a, 0)) * 4;
    if n < 20 {
        20
    } else {
        n as u64
    }
}

/// `sceAgcDcbGetLodStatsGetSize(counterCount)`.
pub fn hle_dcb_get_lod_stats_get_size(args: &[u64]) -> (r: u64)
    ensures
        r == lod_stats_size(args@),
{
    let n: u64 = 0x10 + lo32(get_arg(args, 0)) as u64 * 4;
    if n < 20 {
        20
    } else {
        n
    }
}

/// The size of a data write with the given payload.
pub open spec fn write_data_size(a: Seq<u64>) -> u64 {
    (16 + lo(arg(a, 0)) * 4) as u64
}

/// `sceAgcDcbWriteDataGetSize(numDwords)`.
pub fn hle_dcb_write_data_get_size(args: &[u64]) -> (r: u64)
    ensures
        r == write_data_size(args@),
{
    16 + lo32(get_arg(args, 0)) as u64 * 4
}

/// The room for a wait: 14 DWORDs for 32 bits, 16 for 64 bits, none for another size.
pub open spec fn wait_on_address_size(a: Seq<u64>) -> u64 {
    if a.len() == 0 {
        0
    } else if a[0] == 0 {
        56
    } else if a[0] == 1 {
        64
    } else {
        0
    }
}

/// `sceAgc{Dcb,Acb}WaitOnAddressGetSize(size)`.
pub fn hle_dcb_wait_on_address_get_size(args: &[u64]) -> (r: u64)
    ensures
        r == wait_on_address_size(args@),
{
    if args.len() == 0 {
        0
    } else if args[0] == 0 {
        56
    } else if args[0] == 1 {
        64
    } else {
        0
    }
}

/// The DWORDs, not bytes, of an SH register range with its marker.
pub open spec fn sh_register_range_dwords(a: Seq<u64>) -> u64 {
    (lo(arg(a, 0)) + 4) as u64
}

/// `sceAgcCbSetShRegisterRangeDirectGetSize(numValues)`.
pub fn hle_cb_set_sh_register_range_get_size(args: &[u64]) -> (r: u64)
    ensures
        r == sh_register_range_dwords(args@),
{
    lo32(get_arg(args, 0)) as u64 + 4
}

/// The most that a register list can take: three DWORDs for each register.
pub open spec fn registers_direct_size(a: Seq<u64>) -> u64 {
    (lo(arg(a, 0)) * 12) as u64
}

/// `sceAgcCbSet{Sh,Uc}RegistersDirectGetSize(numRegisters)`.
pub fn hle_cb_set_registers_direct_get_size(args: &[u64]) -> (r: u64)
    ensures
        r == registers_direct_size(args@),
{
    lo32(get_arg(args, 0)) as u64 * 12
}

/// The size of a UCONFIG register range.
pub open spec fn uc_register_range_size(a: Seq<u64>) -> u64 {
    (lo(arg(a, 0)) * 4 + 8) as u64
}

/// `sceAgcCbSetUcRegisterRangeDirectGetSize(numValues)`.
pub fn hle_cb_set_uc_register_range_get_size(args: &[u64]) -> (r: u64)
    ensures
        r == uc_register_range_size(args@),
{
    lo32(get_arg(args, 0)) as u64 * 4 + 8
}

/// `sceAgcDriver...()`: accepted, with nothing to record.
pub fn hle_ok_stub() -> (r: u64)
    ensures
        r == OK,
{
    OK
}

/// `sceAgcGetIsTrinityMode()`: the console is the base model.
pub fn hle_get_is_trinity_mode() -> (r: u64)
    ensures
        r == 0,
{
    0
}

/// `sceAgcUnknownFd5Bp5tGTgo(object, a, b)`: success, with the caller's object left as it is.
pub fn hle_unknown_agc_fd5_bp5t() -> (r: u64)
    ensures
        r == OK,
{
    OK
}

/// `sceAgcUnknownDolOmWHhuQ(out, a, b)`: no object; the output is left as the caller zeroed it.
pub fn hle_unknown_agc_dol_om_wh() -> (r: u64)
    ensures
        r == OK,
{
    OK
}

/// `sceAgcDriverTriggerCapture(..)`: accepted; there is no capture pipeline.
pub fn hle_driver_trigger_capture() -> (r: u64)
    ensures
        r == OK,
{
    OK
}

/// `sceAgcSetPacketPredication(packet, ..)`: accepted; never predicating draws everything.
pub fn hle_set_packet_predication() -> (r: u64)
    ensures
        r == OK,
{
    OK
}

/// `sceAgcSetRangePredication(..)`: ignored.
pub fn hle_set_range_predication() -> (r: u64)
    ensures
        r == OK,
{
    OK
}

/// `sceAgcDebugRaiseException(..)`: the guest goes on.
pub fn hle_debug_raise_exception() -> (r: u64)
    ensures
        r == OK,
{
    OK
}

/// Register-defaults versions that are served.
pub open spec fn supported_version(version: u32) -> bool {
    version == 7 || version == 8 || version == 10 || version == 12 || version == 13
}

/// Whether a register-defaults version is served.
pub fn is_supported_version(version: u32) -> (r: bool)
    ensures
        r == supported_version(version),
{
    matches!(version, 7 | 8 | 10 | 12 | 13)
}

/// The result of initialising with a state and a version.
pub open spec fn init_result(a: Seq<u64>) -> u64 {
    if arg(a, 0) == 0 || !supported_version(lo(arg(a, 1))) {
        SCE_ERROR_INVALID_ARGUMENT
    } else {
        OK
    }
}

/// `sceAgcInit(state, version)`.
pub fn hle_init(args: &[u64]) -> (r: u64)
    ensures
        r == init_result(args@),
{
    if get_arg(args, 0) == 0 || !is_supported_version(lo32(get_arg(args, 1))) {
        SCE_ERROR_INVALID_ARGUMENT
    } else {
        OK
    }
}

/// `sceAgc{Dcb,Acb}AtomicMem(..)`: not built; null rather than a guessed packet.
pub fn hle_atomic_mem_unavailable() -> (r: u64)
    ensures
        r == 0,
{
    0
}

/// `sceAgc{Dcb,Acb}MemSemaphore(..)`: not built; null.
pub fn hle_mem_semaphore_unavailable() -> (r: u64)
    ensures
        r == 0,
{
    0
}

/// `sceAgcCbCondWrite(..)`: not built; null.
pub fn hle_cb_cond_write_unavailable() -> (r: u64)
    ensures
        r == 0,
{
    0
}

/// `sceAgcDcbSetIndexIndirectArgs(..)`: not built; null.
pub fn hle_set_index_indirect_args_unavailable() -> (r: u64)
    ensures
        r == 0,
{
    0
}

/// `sceAgcGetDefaultCxStateFlat(..)`: not known; null.
pub fn hle_get_default_cx_state_flat_unavailable() -> (r: u64)
    ensures
        r == 0,
{
    0
}

/// `sceAgcSetNop(..)`: writes nothing.
pub fn hle_set_nop_unavailable() -> (r: u64)
    ensures
        r == 0,
{
    0
}

/// `sceAgcGetGsOversubscription(..)`: no data.
pub fn hle_get_gs_oversubscription_unavailable() -> (r: u64)
    ensures
        r == 0,
{
    0
}

/// `sceAgcSetAmmSemaphoreMemory(..)`: refused.
pub fn hle_set_amm_semaphore_memory_unavailable() -> (r: u64)
    ensures
        r == SCE_ERROR_INVALID_ARGUMENT,
{
    SCE_ERROR_INVALID_ARGUMENT
}

/// `sceAgcGetSemaphoreLabel(..)`: not known; null.
pub fn hle_get_semaphore_label_unavailable() -> (r: u64)
    ensures
        r == 0,
{
    0
}

} // verus!
