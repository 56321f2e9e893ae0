//! The graphics builders, patches and sizes on concrete buffers.
use raeen_hle::agc::builders::{
    hle_acb_acquire_mem, hle_acb_copy_data, hle_acb_dispatch_indirect, hle_acb_event_write,
    hle_acb_reset_queue, hle_acb_wait_reg_mem, hle_cb_branch, hle_cb_dispatch, hle_cb_release_mem,
    hle_dcb_acquire_mem, hle_dcb_cond_exec, hle_dcb_copy_data, hle_dcb_dispatch_indirect,
    hle_dcb_draw_index_auto, hle_dcb_draw_index_indirect, hle_dcb_draw_index_indirect_multi,
    hle_dcb_draw_index_multi_instanced, hle_dcb_draw_index_offset, hle_dcb_draw_indirect,
    hle_dcb_draw_indirect_multi, hle_dcb_event_write, hle_dcb_get_lod_stats, hle_dcb_jump,
    hle_dcb_pop_marker, hle_dcb_reset_queue, hle_dcb_rewind, hle_dcb_set_cx_register_direct,
    hle_dcb_set_cx_regs_indirect, hle_dcb_set_flip, hle_dcb_set_index_buffer,
    hle_dcb_set_index_count, hle_dcb_set_index_size, hle_dcb_set_num_instances,
    hle_dcb_set_predication, hle_dcb_set_sh_register_direct, hle_dcb_set_sh_regs_indirect,
    hle_dcb_set_uc_register_direct, hle_dcb_set_uc_regs_indirect, hle_dcb_set_workload_complete,
    hle_dcb_set_workload_stream_inactive, hle_dcb_stall_command_buffer_parser,
    hle_dcb_wait_reg_mem, hle_dcb_wait_until_safe, hle_prime_utcl2, hle_unknown_filler,
    hle_unknown_krz_wek_v120, DRAW_AUTO_MODIFIER,
};
use raeen_hle::agc::data::{
    hle_acb_dma_data, hle_cb_nop, hle_cb_set_sh_register_range, hle_cb_set_uc_register_range,
    hle_dcb_dma_data, hle_dcb_draw_index, hle_dcb_set_marker, hle_dcb_set_workloads_active,
    hle_dcb_write_data, SET_SH_RANGE_MARKER,
};
use raeen_hle::agc::driver::{hle_get_resource_max_name_length, hle_suspend_point};
use raeen_hle::agc::packet::{
    pm4, CB_CURSOR_DOWN, CB_CURSOR_UP, CB_RESERVED_DW, IT_COND_EXEC, IT_COPY_DATA,
    IT_DISPATCH_DIRECT, IT_DISPATCH_DRAW_PREAMBLE, IT_DISPATCH_INDIRECT, IT_DRAW_INDEX_2,
    IT_DRAW_INDEX_INDIRECT, IT_DRAW_INDEX_INDIRECT_MULTI, IT_DRAW_INDEX_OFFSET_2,
    IT_DRAW_INDIRECT, IT_DRAW_INDIRECT_MULTI, IT_EVENT_WRITE, IT_GET_LOD_STATS, IT_INDEX_BASE,
    IT_INDEX_BUFFER_SIZE, IT_INDEX_TYPE, IT_INDIRECT_BUFFER, IT_NOP, IT_NUM_INSTANCES, IT_REWIND,
    IT_SET_CONTEXT_REG, IT_SET_PREDICATION, IT_SET_SH_REG, IT_SET_UCONFIG_REG, IT_WAIT_REG_MEM,
    R_ACB_RESET, R_ACQUIRE_MEM, R_CX_REGS_INDIRECT, R_DMA_DATA, R_DRAW_INDEX_AUTO, R_DRAW_RESET,
    R_FLIP, R_POP_MARKER, R_RELEASE_MEM, R_SH_REGS_INDIRECT, R_UC_REGS_INDIRECT, R_WAIT_FLIP_DONE,
    R_WAIT_MEM32, R_WAIT_MEM64, R_WRITE_DATA, R_ZERO,
};
use raeen_hle::agc::patch::{
    hle_add_indirect_patch_registers, hle_branch_patch_set_compare_address,
    hle_cond_exec_patch_set_command_address, hle_cond_exec_patch_set_end,
    hle_dma_data_patch_address, hle_dma_data_patch_src, hle_get_data_packet_payload_address,
    hle_get_data_packet_payload_range, hle_get_packet_size, hle_queue_eop_patch_address,
    hle_queue_eop_patch_data, hle_queue_eop_patch_gcr_cntl, hle_queue_eop_patch_type,
    hle_rewind_patch_set_rewind_state, hle_set_indirect_patch_address,
    hle_set_indirect_patch_set_num_registers, hle_update_prim_state,
    hle_wait_reg_mem_patch_address, hle_wait_reg_mem_patch_compare_function,
    hle_wait_reg_mem_patch_reference, hle_write_data_patch_address,
};
use raeen_hle::agc::registers::{hle_cb_set_sh_registers_direct, hle_cb_set_uc_registers_direct};
use raeen_hle::agc::shader::{
    hle_create_interpolant_mapping, hle_create_prim_state, hle_create_shader, SHADER_CODE_OFFSET,
    SHADER_CX_REGISTERS_OFFSET, SHADER_FILE_HEADER, SHADER_INPUT_SEMANTICS_OFFSET,
    SHADER_NUM_OUTPUT_SEMANTICS_OFFSET, SHADER_NUM_SH_REGISTERS_OFFSET,
    SHADER_OUTPUT_SEMANTICS_OFFSET, SHADER_SH_REGISTERS_OFFSET, SHADER_SPECIALS_OFFSET,
    SHADER_TYPE_OFFSET, SHADER_VERSION, SPECIAL_GE_CNTL_OFFSET,
    SPECIAL_VGT_SHADER_STAGES_EN_OFFSET, SPI_PS_INPUT_CNTL0, SPI_SHADER_PGM_RSRC1_HS,
    VGT_PRIMITIVE_TYPE,
};
use raeen_hle::agc::sizes::{
    hle_atomic_gds_get_size, hle_atomic_mem_get_size, hle_atomic_mem_unavailable,
    hle_cb_branch_get_size, hle_cb_cond_write_get_size, hle_cb_cond_write_unavailable,
    hle_cb_dispatch_get_size, hle_cb_nop_get_size, hle_cb_set_registers_direct_get_size,
    hle_cb_set_sh_register_range_get_size, hle_cb_set_uc_register_range_get_size,
    hle_dcb_context_state_op_get_size, hle_dcb_draw_index_indirect_get_size,
    hle_dcb_get_lod_stats_get_size, hle_dcb_jump_get_size, hle_dcb_rewind_get_size,
    hle_dcb_set_index_count_get_size, hle_dcb_stall_command_buffer_parser_get_size,
    hle_dcb_wait_on_address_get_size, hle_dcb_write_data_get_size, hle_debug_raise_exception,
    hle_dma_data_get_size, hle_event_write_get_size, hle_get_default_cx_state_flat_unavailable,
    hle_get_gs_oversubscription_unavailable, hle_get_semaphore_label_unavailable,
    hle_get_size_2_dwords, hle_get_size_3_dwords, hle_get_size_4_dwords, hle_get_size_5_dwords,
    hle_get_size_6_dwords, hle_get_size_9_dwords, hle_init, hle_mem_semaphore_unavailable,
    hle_prime_utcl2_get_size, hle_queue_eop_action_get_size,
    hle_set_amm_semaphore_memory_unavailable, hle_set_index_indirect_args_unavailable,
    hle_set_nop_unavailable, hle_set_packet_predication, hle_set_range_predication,
};
use raeen_hle::context::{HleContext, SCE_ERROR_INVALID_ARGUMENT};
use raeen_hle::libsce_agc::register;
use raeen_hle::mem::GuestMemory;
use raeen_hle::registry::{HleRegistry, Outcome};

/// A process with `size` bytes of memory from address zero on.
fn ctx_of(size: usize) -> HleContext {
    let mut mem = GuestMemory::empty();
    mem.map_region(0, size);
    HleContext::new(mem)
}

fn write(ctx: &mut HleContext, addr: u64, bytes: &[u8]) -> bool {
    ctx.mem.write(addr, 0, bytes)
}

fn read(ctx: &HleContext, addr: u64, out: &mut [u8]) -> bool {
    match ctx.mem.read(addr, 0, out.len()) {
        Some(bytes) => {
            out.copy_from_slice(&bytes);
            true
        }
        None => false,
    }
}

fn read_u32(ctx: &HleContext, addr: u64) -> u32 {
    let mut b = [0u8; 4];
    assert!(read(ctx, addr, &mut b));
    u32::from_le_bytes(b)
}

fn read_u64(ctx: &HleContext, addr: u64) -> u64 {
    let mut b = [0u8; 8];
    assert!(read(ctx, addr, &mut b));
    u64::from_le_bytes(b)
}

/// The value that a call returned at once.
fn returned(outcome: Option<Outcome>) -> Option<u64> {
    match outcome {
        Some(Outcome::Return(value)) => Some(value),
        _ => None,
    }
}

/// A process with the memory that most cases need.
fn ctx_env() -> HleContext {
    ctx_of(0x2000)
}

/// Set up a command-buffer object at `cb` with a data region [start, end).
fn setup_cb(ctx: &mut HleContext, cb: u64, start: u64, end: u64) {
    assert!(write(ctx, cb + CB_CURSOR_UP, &start.to_le_bytes()));
    assert!(write(ctx, cb + CB_CURSOR_DOWN, &end.to_le_bytes()));
    assert!(write(ctx, cb + CB_RESERVED_DW, &0u32.to_le_bytes()));
}

#[test]
fn get_packet_size_decodes_pm4_length_and_private_marker() {
    let mut ctx = ctx_env();
    let ordinary = 0xC005_1010u32;
    assert!(write(&mut ctx, 0x100, &ordinary.to_le_bytes()));
    assert_eq!(hle_get_packet_size(&mut ctx, &[0x100]), 7);

    assert!(write(&mut ctx, 0x104, &0x3fff_1000u32.to_le_bytes()));
    assert_eq!(hle_get_packet_size(&mut ctx, &[0x104]), 1);
    assert_eq!(hle_get_packet_size(&mut ctx, &[0]), 0);
}

#[test]
fn set_index_size_emits_packet_and_advances_cursor() {
    let mut ctx = ctx_env();
    let cb = 0x40;
    setup_cb(&mut ctx, cb, 0x400, 0x800);
    let ret = hle_dcb_set_index_size(&mut ctx, &[cb, 2, 0]);
    assert_eq!(ret, 0x400, "returns the packet address (old cursor)");
    assert_eq!(read_u32(&ctx, 0x400), pm4(2, IT_INDEX_TYPE, R_ZERO));
    assert_eq!(read_u32(&ctx, 0x404), 2);
    assert_eq!(read_u64(&ctx, cb + CB_CURSOR_UP), 0x408);
    assert_eq!(hle_dcb_set_index_size(&mut ctx, &[cb, 2, 1]), 0);
}

#[test]
fn draw_index_auto_emits_seven_dwords() {
    let mut ctx = ctx_env();
    let cb = 0x40;
    setup_cb(&mut ctx, cb, 0x400, 0x800);
    assert_eq!(hle_dcb_draw_index_auto(&mut ctx, &[cb, 3, 0]), 0);
    let ret = hle_dcb_draw_index_auto(&mut ctx, &[cb, 3, DRAW_AUTO_MODIFIER]);
    assert_eq!(ret, 0x400);
    assert_eq!(read_u32(&ctx, 0x400), pm4(7, IT_NOP, R_DRAW_INDEX_AUTO));
    assert_eq!(read_u32(&ctx, 0x404), 3, "index count");
    assert_eq!(read_u64(&ctx, cb + CB_CURSOR_UP), 0x400 + 28);
}

#[test]
fn set_num_instances_emits_a_two_dword_packet() {
    let mut ctx = ctx_env();
    let cb = 0x40;
    setup_cb(&mut ctx, cb, 0x400, 0x800);
    assert_eq!(hle_dcb_set_num_instances(&mut ctx, &[cb, 8]), 0x400);
    assert_eq!(read_u32(&ctx, 0x400), pm4(2, IT_NUM_INSTANCES, R_ZERO));
    assert_eq!(read_u32(&ctx, 0x404), 8);
    assert_eq!(read_u64(&ctx, cb + CB_CURSOR_UP), 0x408);
}

#[test]
fn set_index_buffer_emits_base_and_size_packets() {
    let mut ctx = ctx_env();
    let cb = 0x40;
    setup_cb(&mut ctx, cb, 0x400, 0x800);
    let ib = 0x1_2345_6780u64;
    assert_eq!(hle_dcb_set_index_buffer(&mut ctx, &[cb, ib, 6]), 0x400);
    assert_eq!(read_u32(&ctx, 0x400), pm4(3, IT_INDEX_BASE, R_ZERO));
    assert_eq!(read_u32(&ctx, 0x404), ib as u32);
    assert_eq!(read_u32(&ctx, 0x408), (ib >> 32) as u32);
    assert_eq!(read_u32(&ctx, 0x40C), pm4(2, IT_INDEX_BUFFER_SIZE, R_ZERO));
    assert_eq!(read_u32(&ctx, 0x410), 6);
    assert_eq!(read_u64(&ctx, cb + CB_CURSOR_UP), 0x400 + 20);
}

#[test]
fn draw_index_emits_base_then_draw_packets() {
    let mut ctx = ctx_env();
    let cb = 0x40;
    setup_cb(&mut ctx, cb, 0x400, 0x800);
    let ib = 0x00AB_CDEF_1234_5678u64;
    assert_eq!(
        hle_dcb_draw_index(&mut ctx, &[cb, 6, ib, 0]),
        0,
        "bad modifier → 0"
    );
    let ret = hle_dcb_draw_index(&mut ctx, &[cb, 6, ib, DRAW_AUTO_MODIFIER]);
    assert_eq!(ret, 0x400);
    assert_eq!(read_u32(&ctx, 0x400), pm4(3, IT_INDEX_BASE, R_ZERO));
    assert_eq!(read_u32(&ctx, 0x40C), pm4(2, IT_INDEX_BUFFER_SIZE, R_ZERO));
    assert_eq!(read_u32(&ctx, 0x414), pm4(5, IT_DRAW_INDEX_2, R_ZERO));
    assert_eq!(read_u32(&ctx, 0x418), 6, "index count in draw packet");
    assert_eq!(read_u64(&ctx, cb + CB_CURSOR_UP), 0x400 + 40);
}

#[test]
fn reset_queue_validates_and_wait_emits_flip_packet() {
    let mut ctx = ctx_env();
    let cb = 0x40;
    setup_cb(&mut ctx, cb, 0x400, 0x800);
    assert_eq!(hle_dcb_reset_queue(&mut ctx, &[cb, 0, 0]), 0);
    assert_eq!(hle_dcb_reset_queue(&mut ctx, &[cb, 0x3FF, 0]), 0x400);
    assert_eq!(read_u32(&ctx, 0x400), pm4(2, IT_NOP, R_DRAW_RESET));
    let ret = hle_dcb_wait_until_safe(&mut ctx, &[cb, 9, 1]);
    assert_eq!(ret, 0x408);
    assert_eq!(read_u32(&ctx, 0x408), pm4(7, IT_NOP, R_WAIT_FLIP_DONE));
    assert_eq!(read_u32(&ctx, 0x40C), 9, "video-out handle");
    assert_eq!(read_u32(&ctx, 0x410), 1, "display buffer index");
    assert_eq!(read_u64(&ctx, cb + CB_CURSOR_UP), 0x408 + 28);
}

#[test]
fn pop_marker_and_dispatch_emit_correctly() {
    let mut ctx = ctx_env();
    let cb = 0x40;
    setup_cb(&mut ctx, cb, 0x400, 0x800);
    assert_eq!(hle_dcb_pop_marker(&mut ctx, &[cb]), 0x400);
    assert_eq!(read_u32(&ctx, 0x400), pm4(2, IT_NOP, R_POP_MARKER));
    let ret = hle_cb_dispatch(&mut ctx, &[cb, 4, 2, 1, 0]);
    assert_eq!(ret, 0x408);
    assert_eq!(read_u32(&ctx, 0x408), pm4(5, IT_DISPATCH_DIRECT, R_ZERO));
    assert_eq!(read_u32(&ctx, 0x40C), 4);
    assert_eq!(read_u32(&ctx, 0x410), 2);
    assert_eq!(read_u32(&ctx, 0x414), 1);
    assert_eq!(
        read_u32(&ctx, 0x418),
        0x41,
        "initiator = (0 & 0xA038) | 0x41"
    );
    assert_eq!(read_u64(&ctx, cb + CB_CURSOR_UP), 0x408 + 20);
}

#[test]
fn cb_nop_setflip_acbreset_emit_correctly() {
    let mut ctx = ctx_env();
    let cb = 0x40;
    setup_cb(&mut ctx, cb, 0x400, 0x800);
    assert_eq!(hle_cb_nop(&mut ctx, &[cb, 1]), 0);
    assert_eq!(hle_cb_nop(&mut ctx, &[cb, 3]), 0x400);
    assert_eq!(read_u32(&ctx, 0x400), pm4(3, IT_NOP, R_ZERO));
    assert_eq!(read_u32(&ctx, 0x404), 0);
    let ret = hle_dcb_set_flip(&mut ctx, &[cb, 7, 2, 1, 0x0000_00AB_1234_5678]);
    assert_eq!(ret, 0x40C);
    assert_eq!(read_u32(&ctx, 0x40C), pm4(6, IT_NOP, R_FLIP));
    assert_eq!(read_u32(&ctx, 0x41C), 0x1234_5678, "flip arg low");
    assert_eq!(read_u32(&ctx, 0x420), 0x0000_00AB, "flip arg high");
    let a = hle_acb_reset_queue(&mut ctx, &[cb]);
    assert_eq!(read_u32(&ctx, a), pm4(2, IT_NOP, R_ACB_RESET));
}

#[test]
fn cb_release_mem_emits_gen5_packet_and_validates_fields() {
    let mut ctx = ctx_env();
    let cb = 0x40;
    setup_cb(&mut ctx, cb, 0x400, 0x800);

    let address = 0x1234_5678_9abc_def0;
    let data = 0x0fed_cba9_8765_4321;
    let args = [
        cb,
        0x5a,
        0x1234,
        1,
        0xa5,
        address,
        3,
        data,
        0,
        2,
        3,
        0xdead_beef,
    ];
    assert_eq!(hle_cb_release_mem(&mut ctx, &args), 0x400);
    assert_eq!(read_u32(&ctx, 0x400), pm4(8, IT_NOP, R_RELEASE_MEM));
    assert_eq!(read_u32(&ctx, 0x404), 0x0000_a55a);
    assert_eq!(read_u32(&ctx, 0x408), 0x0303_1234);
    assert_eq!(read_u32(&ctx, 0x40c), address as u32);
    assert_eq!(read_u32(&ctx, 0x410), (address >> 32) as u32);
    assert_eq!(read_u32(&ctx, 0x414), data as u32);
    assert_eq!(read_u32(&ctx, 0x418), (data >> 32) as u32);
    assert_eq!(read_u32(&ctx, 0x41c), 0xdead_beef);
    assert_eq!(read_u64(&ctx, cb + CB_CURSOR_UP), 0x420);

    for invalid in [
        [cb, 0, 0, 2, 0, 0, 0, 0, 0, 0, 0, 0],
        [cb, 0, 0, 0, 0, 0, 4, 0, 0, 0, 0, 0],
        [cb, 0, 0, 0, 0, 0, 0, 0, 1, 0, 0, 0],
        [cb, 0, 0, 0, 0, 0, 0, 0, 0, 3, 0, 0],
        [cb, 0, 0, 0, 0, 0, 0, 0, 0, 0, 4, 0],
    ] {
        assert_eq!(hle_cb_release_mem(&mut ctx, &invalid), 0);
        assert_eq!(read_u64(&ctx, cb + CB_CURSOR_UP), 0x420);
    }

    let mut registry = HleRegistry::new();
    register(&mut registry);
    assert!(registry.is_implemented("libSceAgc", "sceAgcCbReleaseMem"));
}

#[test]
fn set_sh_register_range_emits_marker_and_copies_values() {
    let mut ctx = ctx_env();
    let cb = 0x40;
    setup_cb(&mut ctx, cb, 0x400, 0x800);
    assert!(write(&mut ctx, 0x100, &0xAAAA_AAAAu32.to_le_bytes()));
    assert!(write(&mut ctx, 0x104, &0xBBBB_BBBBu32.to_le_bytes()));
    let ret = hle_cb_set_sh_register_range(&mut ctx, &[cb, 0x2C, 0x100, 2]);
    assert_eq!(
        ret, 0x408,
        "returns the SET_SH_REG packet (after the marker)"
    );
    assert_eq!(read_u32(&ctx, 0x400), pm4(2, IT_NOP, R_ZERO));
    assert_eq!(read_u32(&ctx, 0x404), SET_SH_RANGE_MARKER);
    assert_eq!(read_u32(&ctx, 0x408), pm4(4, IT_SET_SH_REG, R_ZERO));
    assert_eq!(read_u32(&ctx, 0x40C), 0x2C, "register offset");
    assert_eq!(read_u32(&ctx, 0x410), 0xAAAA_AAAA);
    assert_eq!(read_u32(&ctx, 0x414), 0xBBBB_BBBB);
    assert_eq!(
        hle_cb_set_sh_register_range(&mut ctx, &[cb, 0x400, 0x100, 1]),
        0
    );
}

#[test]
fn init_validates_version_and_event_write_emits() {
    let mut ctx = ctx_env();
    assert_eq!(hle_init(&[0x40, 8]), 0);
    assert_eq!(hle_init(&[0x40, 12]), 0);
    assert_eq!(hle_init(&[0x40, 13]), 0);
    assert_eq!(
        hle_init(&[0x40, 9]),
        SCE_ERROR_INVALID_ARGUMENT,
        "bad version"
    );
    assert_eq!(
        hle_init(&[0, 8]),
        SCE_ERROR_INVALID_ARGUMENT,
        "null state"
    );

    let registry = HleRegistry::new();
    assert!(
        registry
            .registered_nid_overrides()
            .iter()
            .any(|(nid, library, name)| *nid == 0xdb72_d151_2bd8_bb53 && *library == "libSceAgc" && *name == "sceAgcInit")
    );

    let cb = 0x40;
    setup_cb(&mut ctx, cb, 0x400, 0x800);
    assert_eq!(
        hle_dcb_event_write(&mut ctx, &[cb, 0x40, 0]),
        0,
        "type > 0x3F rejected"
    );
    assert_eq!(
        hle_dcb_event_write(&mut ctx, &[cb, 0x14, 1]),
        0,
        "non-zero address rejected"
    );
    assert_eq!(hle_dcb_event_write(&mut ctx, &[cb, 0x14, 0]), 0x400);
    assert_eq!(read_u32(&ctx, 0x400), pm4(2, IT_EVENT_WRITE, R_ZERO));
    assert_eq!(read_u32(&ctx, 0x404), 0x14, "event type");

    setup_cb(&mut ctx, cb, 0x500, 0x800);
    let a = hle_acb_event_write(&mut ctx, &[cb, 0x38, 0x1234_5678_9ABC_DEF8]);
    assert_eq!(read_u32(&ctx, a), pm4(4, IT_EVENT_WRITE, R_ZERO));
    assert_eq!(read_u32(&ctx, a + 4), 0x38 | 0x100, "address-type word");
    assert_eq!(
        read_u32(&ctx, a + 8),
        0x9ABC_DEF8 & !7,
        "addr low, 8-aligned"
    );
    assert_eq!(read_u32(&ctx, a + 12), 0x1234_5678, "addr high");
    let a2 = hle_acb_event_write(&mut ctx, &[cb, 0x14, 0]);
    assert_eq!(read_u32(&ctx, a2), pm4(2, IT_EVENT_WRITE, R_ZERO));
    assert_eq!(read_u32(&ctx, a2 + 4), 0x14);

    let a = hle_acb_dispatch_indirect(&mut ctx, &[cb, 0x00AB_1234_5678_0000, 0]);
    assert_eq!(read_u32(&ctx, a), pm4(4, IT_DISPATCH_INDIRECT, R_ZERO));
    assert_eq!(read_u32(&ctx, a + 4), 0x5678_0000, "args low");
    assert_eq!(read_u32(&ctx, a + 8), 0x00AB_1234, "args high");
    assert_eq!(read_u32(&ctx, a + 12), 0x41, "initiator");
}

#[test]
fn dcb_write_data_copies_inline_dwords_with_stack_args() {
    let mut ctx = ctx_env();
    let cb = 0x40;
    setup_cb(&mut ctx, cb, 0x400, 0x800);
    let src = 0x300u64;
    assert!(write(&mut ctx, src, &0xDEAD_BEEFu32.to_le_bytes()));
    assert!(write(&mut ctx, src + 4, &0xCAFE_F00Du32.to_le_bytes()));
    let dst_addr = 0x0000_0012_3456_0000u64;
    let ret = hle_dcb_write_data(&mut ctx, &[cb, 2, 1, dst_addr, src, 2, 1, 1]);
    assert_eq!(ret, 0x400);
    assert_eq!(
        read_u32(&ctx, 0x400),
        pm4(2 + 4, IT_NOP, R_WRITE_DATA),
        "header"
    );
    assert_eq!(read_u32(&ctx, 0x404), 2 | (1 << 8) | (1 << 16) | (1 << 24));
    assert_eq!(read_u32(&ctx, 0x408), dst_addr as u32, "dst low");
    assert_eq!(read_u32(&ctx, 0x40C), (dst_addr >> 32) as u32, "dst high");
    assert_eq!(read_u32(&ctx, 0x410), 0xDEAD_BEEF, "inline dword 0");
    assert_eq!(read_u32(&ctx, 0x414), 0xCAFE_F00D, "inline dword 1");
    assert_eq!(
        hle_dcb_write_data(&mut ctx, &[cb, 0, 0, dst_addr, src, 0x3FFE, 0, 0]),
        0
    );
}

#[test]
fn dcb_wait_reg_mem_standard_and_wait_variants() {
    let mut ctx = ctx_env();
    let cb = 0x40;
    setup_cb(&mut ctx, cb, 0x400, 0x800);
    let addr = 0x0000_0000_ABCD_0000u64;
    let ret = hle_dcb_wait_reg_mem(&mut ctx, &[cb, 0, 3, 2, 0, addr, 0x11, 0x22, 80]);
    assert_eq!(ret, 0x400);
    assert_eq!(read_u32(&ctx, 0x400), pm4(7, IT_WAIT_REG_MEM, R_ZERO));
    assert_eq!(read_u32(&ctx, 0x404), 3, "compare | ((op & 1) << 8)");
    assert_eq!(read_u32(&ctx, 0x418), 80 / 40, "poll cycles /40");
    let ret2 = hle_dcb_wait_reg_mem(&mut ctx, &[cb, 0, 1, 0, 0, addr, 0x33, 0x44, 40]);
    assert_eq!(read_u32(&ctx, ret2), pm4(6, IT_NOP, R_WAIT_MEM32));
    assert_eq!(read_u32(&ctx, ret2 + 12), 0x44, "mask low");
    assert_eq!(read_u32(&ctx, ret2 + 16), 1, "compare|op (op=0)");
    assert_eq!(
        hle_dcb_wait_reg_mem(&mut ctx, &[cb, 0, 8, 0, 0, addr, 0, 0, 0]),
        0
    );
}

#[test]
fn dcb_dma_data_packs_control_and_addresses() {
    let mut ctx = ctx_env();
    let cb = 0x40;
    setup_cb(&mut ctx, cb, 0x400, 0x800);
    let dst = 0x0000_0011_1111_0000u64;
    let src = 0x0000_0022_2222_0000u64;
    let ret = hle_dcb_dma_data(&mut ctx, &[cb, 1, 2, 3, dst, 0, 0xAA, src, 16, 0xBB, 0xCC, 0xDD]);
    assert_eq!(ret, 0x400);
    assert_eq!(read_u32(&ctx, 0x400), pm4(8, IT_NOP, R_DMA_DATA));
    assert_eq!(
        read_u32(&ctx, 0x404),
        1 | (2 << 8) | (3 << 16),
        "control0 (src_cache=0)"
    );
    assert_eq!(
        read_u32(&ctx, 0x408),
        0xAA | (0xBB << 8) | (0xCC << 16) | (0xDD << 24)
    );
    assert_eq!(read_u32(&ctx, 0x40C), 16, "byte count");
    assert_eq!(read_u64(&ctx, 0x410), dst, "dst address");
    assert_eq!(read_u64(&ctx, 0x418), src, "src address");
    assert_eq!(
        hle_dcb_dma_data(&mut ctx, &[cb, 0, 0, 0, dst, 0, 0, src, 3, 0, 0, 0]),
        0
    );
}

#[test]
fn dcb_acquire_mem_encodes_engine_and_size() {
    let mut ctx = ctx_env();
    let cb = 0x40;
    setup_cb(&mut ctx, cb, 0x400, 0x800);
    let base = 0x0000_0000_1234_0000u64;
    let ret = hle_dcb_acquire_mem(&mut ctx, &[cb, 1, 0xF, 0x7, base, 0x100, 80]);
    assert_eq!(ret, 0x400);
    assert_eq!(read_u32(&ctx, 0x400), pm4(8, IT_NOP, R_ACQUIRE_MEM));
    assert_eq!(read_u32(&ctx, 0x404), (1u32 << 31) | 0xF, "engine|cbDbOp");
    assert_eq!(read_u32(&ctx, 0x408), (0x100u64 >> 8) as u32, "size >>8");
    assert_eq!(read_u32(&ctx, 0x410), (base >> 8) as u32, "base >>8");
    assert_eq!(read_u32(&ctx, 0x418), 80 / 40, "poll /40");
    assert_eq!(read_u32(&ctx, 0x41C), 0x7, "gcr control");
    let ret2 = hle_dcb_acquire_mem(&mut ctx, &[cb, 0, 0, 0, base, u64::MAX, 40]);
    assert_eq!(read_u32(&ctx, ret2 + 8), 0, "no-size → 0");
    let ret3 = hle_dcb_acquire_mem(&mut ctx, &[cb, 2, 0, 0, base + 1, 0x101, 40]);
    assert_ne!(ret3, 0);
    assert_eq!(read_u32(&ctx, ret3 + 4), 0);
    assert_eq!(read_u32(&ctx, ret3 + 8), 1);
    assert_eq!(read_u32(&ctx, ret3 + 16), (base >> 8) as u32);
}

#[test]
fn set_registers_indirect_tags_the_right_space() {
    let mut ctx = ctx_env();
    let cb = 0x40;
    setup_cb(&mut ctx, cb, 0x400, 0x800);
    let regs = 0x00CD_1234_5678_0000u64;
    let sh = hle_dcb_set_sh_regs_indirect(&mut ctx, &[cb, regs, 4]);
    assert_eq!(read_u32(&ctx, sh), pm4(4, IT_NOP, R_SH_REGS_INDIRECT));
    assert_eq!(read_u32(&ctx, sh + 4), 4, "register count");
    assert_eq!(read_u32(&ctx, sh + 8), regs as u32);
    let cx = hle_dcb_set_cx_regs_indirect(&mut ctx, &[cb, regs, 2]);
    assert_eq!(read_u32(&ctx, cx), pm4(4, IT_NOP, R_CX_REGS_INDIRECT));
    let uc = hle_dcb_set_uc_regs_indirect(&mut ctx, &[cb, regs, 1]);
    assert_eq!(read_u32(&ctx, uc), pm4(4, IT_NOP, R_UC_REGS_INDIRECT));
}

#[test]
fn dcb_dispatch_indirect_max_name_length_and_suspend() {
    let mut ctx = ctx_env();
    let cb = 0x40;
    setup_cb(&mut ctx, cb, 0x400, 0x800);
    let ret = hle_dcb_dispatch_indirect(&mut ctx, &[cb, 0x20, 0]);
    assert_eq!(ret, 0x400);
    assert_eq!(read_u32(&ctx, 0x400), pm4(3, IT_DISPATCH_INDIRECT, R_ZERO));
    assert_eq!(read_u32(&ctx, 0x404), 0x20, "data offset");
    assert_eq!(read_u32(&ctx, 0x408), 0x41, "initiator");
    assert_eq!(hle_get_resource_max_name_length(&mut ctx, &[0x100]), 0);
    assert_eq!(read_u32(&ctx, 0x100), 256);
    assert_eq!(
        hle_get_resource_max_name_length(&mut ctx, &[0]),
        SCE_ERROR_INVALID_ARGUMENT
    );
    assert_eq!(hle_suspend_point(&mut ctx, &[]), 0);
    let d = hle_dcb_draw_index_offset(&mut ctx, &[cb, 0x10, 6, 0xE000_0001]);
    assert_eq!(read_u32(&ctx, d), pm4(5, IT_DRAW_INDEX_OFFSET_2, R_ZERO));
    assert_eq!(read_u32(&ctx, d + 4), 6);
    assert_eq!(read_u32(&ctx, d + 8), 0x10);
    assert_eq!(read_u32(&ctx, d + 16), 0xE000_0001);
    let f = hle_unknown_filler(&mut ctx, &[cb]);
    assert_eq!(read_u32(&ctx, f), 0x8000_0000);
}

#[test]
fn dcb_jump_emits_the_chain_packet() {
    let mut ctx = ctx_env();
    let cb = 0x40;
    setup_cb(&mut ctx, cb, 0x400, 0x800);
    let target = 0x0001_2345_6789_ABC0u64;
    let ret = hle_dcb_jump(&mut ctx, &[cb, target, 0x12_3456]);
    assert_eq!(ret, 0x400);
    assert_eq!(read_u32(&ctx, 0x400), pm4(4, IT_INDIRECT_BUFFER, R_ZERO));
    assert_eq!(read_u32(&ctx, 0x404), 0x6789_ABC0, "target lo32");
    assert_eq!(read_u32(&ctx, 0x408), 0x0001_2345 & 0xFFFF, "target hi16");
    assert_eq!(
        read_u32(&ctx, 0x40C),
        0x12_3456 & 0xF_FFFF,
        "size & 0xFFFFF"
    );
    assert_eq!(read_u64(&ctx, cb + CB_CURSOR_UP), 0x410);
    assert_eq!(hle_dcb_jump(&mut ctx, &[0, target, 8]), 0, "null dcb → 0");
}

#[test]
fn cb_branch_emits_the_fourteen_dword_conditional_chain() {
    let mut ctx = ctx_env();
    let cb = 0x40;
    setup_cb(&mut ctx, cb, 0x400, 0x800);
    let compare_addr = 0x0000_0012_3456_789Fu64;
    let mask = 0x1122_3344_5566_7788u64;
    let reference = 0x99AA_BBCC_DDEE_FF00u64;
    let buffer1 = 0x0000_0045_0000_1003u64;
    let buffer2 = 0x0000_0046_0000_2002u64;
    let ret = hle_cb_branch(&mut ctx, &[
            cb,
            1,
            5,
            compare_addr,
            mask,
            reference,
            2,
            buffer1,
            0x123,
            3,
            buffer2,
            0x0004_5678,
        ]);
    assert_eq!(ret, 0x400);
    assert_eq!(read_u32(&ctx, 0x400), pm4(14, IT_INDIRECT_BUFFER, R_ZERO));
    assert_eq!(read_u32(&ctx, 0x404), 1 | (5 << 8), "mode + compare fn");
    assert_eq!(read_u32(&ctx, 0x408), 0x3456_7898, "compare lo &~7");
    assert_eq!(read_u32(&ctx, 0x40C), 0x12, "compare hi");
    assert_eq!(read_u32(&ctx, 0x410), 0x5566_7788, "mask lo");
    assert_eq!(read_u32(&ctx, 0x414), 0x1122_3344, "mask hi");
    assert_eq!(read_u32(&ctx, 0x418), 0xDDEE_FF00, "reference lo");
    assert_eq!(read_u32(&ctx, 0x41C), 0x99AA_BBCC, "reference hi");
    assert_eq!(read_u32(&ctx, 0x420), 0x0000_1000, "then lo &~3");
    assert_eq!(read_u32(&ctx, 0x424), 0x45, "then hi");
    assert_eq!(read_u32(&ctx, 0x428), 0x123 | (2 << 28), "then size+policy");
    assert_eq!(read_u32(&ctx, 0x42C), 0x0000_2000, "else lo &~3");
    assert_eq!(read_u32(&ctx, 0x430), 0x46, "else hi");
    assert_eq!(
        read_u32(&ctx, 0x434),
        0x4_5678 | (3u32 << 28),
        "else size+policy"
    );
    assert_eq!(read_u64(&ctx, cb + CB_CURSOR_UP), 0x400 + 14 * 4);
    assert_eq!(hle_cb_branch_get_size(), 14 * 4);
}

#[test]
fn draw_indirect_emits_the_five_dword_packet() {
    let mut ctx = ctx_env();
    let cb = 0x40;
    setup_cb(&mut ctx, cb, 0x400, 0x800);
    let ret = hle_dcb_draw_indirect(&mut ctx, &[cb, 0x120, 0xA038]);
    assert_eq!(ret, 0x400);
    assert_eq!(read_u32(&ctx, 0x400), pm4(5, IT_DRAW_INDIRECT, R_ZERO));
    assert_eq!(read_u32(&ctx, 0x404), 0x120, "argument-buffer data offset");
    assert_eq!(read_u32(&ctx, 0x408), 0);
    assert_eq!(read_u32(&ctx, 0x40C), 0);
    assert_eq!(read_u32(&ctx, 0x410), 0xA038, "modifier");
    assert_eq!(read_u64(&ctx, cb + CB_CURSOR_UP), 0x400 + 20);
}

#[test]
fn set_num_registers_overwrites_the_indirect_count_field() {
    let mut ctx = ctx_env();
    let cb = 0x40;
    setup_cb(&mut ctx, cb, 0x400, 0x800);
    let cmd = hle_dcb_set_cx_regs_indirect(&mut ctx, &[cb, 0x9000, 3]);
    assert_eq!(read_u32(&ctx, cmd + 4), 3);
    assert_eq!(hle_add_indirect_patch_registers(&mut ctx, &[cmd, 5]), 0);
    assert_eq!(read_u32(&ctx, cmd + 4), 8);
    assert_eq!(
        hle_set_indirect_patch_set_num_registers(&mut ctx, &[cmd, 21]),
        0
    );
    assert_eq!(read_u32(&ctx, cmd + 4), 21);
    assert_eq!(
        hle_set_indirect_patch_set_num_registers(&mut ctx, &[0, 21]),
        SCE_ERROR_INVALID_ARGUMENT
    );
    assert_eq!(hle_set_packet_predication(), 0);
    assert_eq!(read_u32(&ctx, cmd + 4), 21);
}

#[test]
fn set_marker_preserves_the_string_in_a_plain_nop() {
    let mut ctx = ctx_env();
    let cb = 0x40;
    setup_cb(&mut ctx, cb, 0x400, 0x800);
    assert!(write(&mut ctx, 0x100, b"frame\0"));
    let ret = hle_dcb_set_marker(&mut ctx, &[cb, 0x100]);
    assert_eq!(ret, 0x400);
    assert_eq!(read_u32(&ctx, 0x400), pm4(3, IT_NOP, R_ZERO));
    assert_eq!(read_u32(&ctx, 0x404), u32::from_le_bytes(*b"fram"));
    assert_eq!(read_u32(&ctx, 0x408), u32::from(b'e'));
    assert_eq!(read_u64(&ctx, cb + CB_CURSOR_UP), 0x40C);
}

#[test]
fn patch_address_setters_validate_packet_identity() {
    let mut ctx = ctx_env();
    assert!(
        write(&mut ctx, 0x200, &pm4(8, IT_NOP, R_RELEASE_MEM).to_le_bytes())
    );
    assert_eq!(
        hle_queue_eop_patch_address(&mut ctx, &[0x200, 0xDEAD_BEEF_0000]),
        0
    );
    assert_eq!(read_u64(&ctx, 0x200 + 12), 0xDEAD_BEEF_0000);
    assert!(
        write(&mut ctx, 0x200, &pm4(8, IT_NOP, R_DMA_DATA).to_le_bytes())
    );
    assert_eq!(
        hle_queue_eop_patch_address(&mut ctx, &[0x200, 1]),
        SCE_ERROR_INVALID_ARGUMENT
    );
    assert_eq!(hle_dma_data_patch_address(&mut ctx, &[0x200, 0xC0DE_0000]), 0);
    assert_eq!(read_u64(&ctx, 0x200 + 16), 0xC0DE_0000);
    assert!(
        write(&mut ctx, 0x300, &pm4(7, IT_WAIT_REG_MEM, R_ZERO).to_le_bytes())
    );
    assert_eq!(hle_wait_reg_mem_patch_address(&mut ctx, &[0x300, 0xAA00]), 0);
    assert_eq!(read_u64(&ctx, 0x300 + 8), 0xAA00);
    assert!(
        write(&mut ctx, 0x300, &pm4(6, IT_NOP, R_WAIT_MEM32).to_le_bytes())
    );
    assert_eq!(hle_wait_reg_mem_patch_address(&mut ctx, &[0x300, 0xBB00]), 0);
    assert_eq!(read_u64(&ctx, 0x300 + 4), 0xBB00);

    assert!(
        write(&mut ctx, 0x380, &pm4(6, IT_NOP, R_WRITE_DATA).to_le_bytes())
    );
    assert_eq!(
        hle_write_data_patch_address(&mut ctx, &[0x380, 0x1234_5678_9000]),
        0
    );
    assert_eq!(read_u64(&ctx, 0x380 + 8), 0x1234_5678_9000);
    assert!(write(&mut ctx, 0x380, &pm4(6, IT_NOP, R_ZERO).to_le_bytes()));
    assert_eq!(
        hle_write_data_patch_address(&mut ctx, &[0x380, 1]),
        SCE_ERROR_INVALID_ARGUMENT
    );

    let mut registry = HleRegistry::new();
    register(&mut registry);
    assert!(
        registry
            .registered_nid_overrides()
            .iter()
            .any(|(nid, library, name)| *nid == 0x7cf4_8275_0c60_a52c && *library == "libSceAgc" && *name == "sceAgcWriteDataPatchAddress")
    );
}

#[test]
fn get_data_packet_payload_address() {
    let mut ctx = ctx_env();
    let out: u64 = 0x100;
    let command: u64 = 0x200;
    assert_eq!(
        hle_get_data_packet_payload_address(&mut ctx, &[out, command, 1]),
        0
    );
    assert_eq!(read_u64(&ctx, out), command + 8);
    assert!(write(&mut ctx, command, &0xC001_0000u32.to_le_bytes()));
    assert_eq!(
        hle_get_data_packet_payload_address(&mut ctx, &[out, command, 0]),
        0
    );
    assert_eq!(read_u64(&ctx, out), command + 4);
    assert!(write(&mut ctx, command, &0x3FFF_0000u32.to_le_bytes()));
    assert_eq!(
        hle_get_data_packet_payload_address(&mut ctx, &[out, command, 0]),
        0
    );
    assert_eq!(read_u64(&ctx, out), 0);
    assert_eq!(
        hle_get_data_packet_payload_address(&mut ctx, &[0, command, 0]),
        SCE_ERROR_INVALID_ARGUMENT
    );

    let mut registry = HleRegistry::new();
    register(&mut registry);
    assert!(
        registry
            .registered_nid_overrides()
            .iter()
            .any(|(nid, library, name)| *nid == 0x57ef_9480_1b50_867d && *library == "libSceAgc" && *name == "sceAgcGetDataPacketPayloadAddress")
    );
}

#[test]
fn indirect_patch_set_address_and_add_registers() {
    let mut ctx = ctx_env();
    let command: u64 = 0x100;
    assert_eq!(
        hle_set_indirect_patch_address(&mut ctx, &[command, 0x00AB_1234_5678_0000]),
        0
    );
    assert_eq!(read_u32(&ctx, command + 8), 0x5678_0000);
    assert_eq!(read_u32(&ctx, command + 12), 0x00AB_1234);
    assert!(write(&mut ctx, command + 4, &10u32.to_le_bytes()));
    assert_eq!(hle_add_indirect_patch_registers(&mut ctx, &[command, 5]), 0);
    assert_eq!(read_u32(&ctx, command + 4), 15);
    assert_eq!(hle_add_indirect_patch_registers(&mut ctx, &[command, 3]), 0);
    assert_eq!(read_u32(&ctx, command + 4), 18);
    assert_eq!(
        hle_set_indirect_patch_address(&mut ctx, &[0, 1]),
        SCE_ERROR_INVALID_ARGUMENT
    );
    assert_eq!(
        hle_add_indirect_patch_registers(&mut ctx, &[0, 1]),
        SCE_ERROR_INVALID_ARGUMENT
    );
    let reg = HleRegistry::new();
    for space in ["Cx", "Sh", "Uc"] {
        for suffix in ["SetAddress", "AddRegisters"] {
            let name = format!("sceAgcSet{space}RegIndirectPatch{suffix}");
            assert!(
                reg.call(&mut ctx, "libSceAgc", &name, &[command, 1]).is_some(),
                "{name} must be registered"
            );
        }
    }
}

#[test]
fn create_interpolant_mapping_builds_input_cntl_registers() {
    let mut ctx = ctx_env();
    let registers: u64 = 0x100;
    let geometry: u64 = 0x200;
    let pixel: u64 = 0x280;
    assert!(write(&mut ctx, 
        geometry + SHADER_OUTPUT_SEMANTICS_OFFSET,
        &0x300u64.to_le_bytes()
    ));
    assert!(write(&mut ctx, 
        geometry + SHADER_NUM_OUTPUT_SEMANTICS_OFFSET,
        &2u32.to_le_bytes()
    ));
    assert!(write(&mut ctx, 
        pixel + SHADER_INPUT_SEMANTICS_OFFSET,
        &0x340u64.to_le_bytes()
    ));
    assert!(write(&mut ctx, 0x340, &0u32.to_le_bytes()));
    assert!(write(&mut ctx, 0x344, &(1u32 << 22).to_le_bytes()));
    assert_eq!(
        hle_create_interpolant_mapping(&mut ctx, &[registers, geometry, pixel]),
        0
    );
    assert_eq!(read_u32(&ctx, registers), SPI_PS_INPUT_CNTL0);
    assert_eq!(read_u32(&ctx, registers + 4), 0);
    assert_eq!(read_u32(&ctx, registers + 8), SPI_PS_INPUT_CNTL0 + 1);
    assert_eq!(read_u32(&ctx, registers + 12), 1 | 0x400);
    assert_eq!(read_u32(&ctx, registers + 16), SPI_PS_INPUT_CNTL0 + 2);
    assert_eq!(read_u32(&ctx, registers + 20), 0);
    assert_eq!(
        hle_create_interpolant_mapping(&mut ctx, &[0, geometry, pixel]),
        SCE_ERROR_INVALID_ARGUMENT
    );
}

#[test]
fn create_shader_relocates_fields_and_binds_code() {
    let mut ctx = ctx_env();
    let header: u64 = 0x200;
    assert!(write(&mut ctx, header, &SHADER_FILE_HEADER.to_le_bytes()));
    assert!(write(&mut ctx, header + 4, &SHADER_VERSION.to_le_bytes()));
    assert!(
        write(&mut ctx, header + SHADER_CX_REGISTERS_OFFSET, &0x40u64.to_le_bytes())
    );
    let sh_registers = header + SHADER_SH_REGISTERS_OFFSET + 0x80;
    assert!(
        write(&mut ctx, header + SHADER_SH_REGISTERS_OFFSET, &0x80u64.to_le_bytes())
    );
    assert!(write(&mut ctx, sh_registers, &0x08u32.to_le_bytes()));
    assert!(write(&mut ctx, sh_registers + 4, &0u32.to_le_bytes()));
    assert!(write(&mut ctx, sh_registers + 8, &0x09u32.to_le_bytes()));
    assert!(write(&mut ctx, sh_registers + 12, &0u32.to_le_bytes()));
    assert!(write(&mut ctx, header + SHADER_TYPE_OFFSET, &[1]));
    assert!(write(&mut ctx, header + SHADER_NUM_SH_REGISTERS_OFFSET, &[2]));
    let dest: u64 = 0x100;
    let code: u64 = 0xC0DE_0000;
    assert_eq!(hle_create_shader(&mut ctx, &[dest, header, code]), 0);
    let mut b = [0u8; 8];
    assert!(read(&ctx, header + SHADER_CX_REGISTERS_OFFSET, &mut b));
    assert_eq!(
        u64::from_le_bytes(b),
        header + SHADER_CX_REGISTERS_OFFSET + 0x40
    );
    assert!(read(&ctx, header + SHADER_CODE_OFFSET, &mut b));
    assert_eq!(u64::from_le_bytes(b), code);
    assert!(read(&ctx, dest, &mut b));
    assert_eq!(u64::from_le_bytes(b), header);
    assert_eq!(read_u32(&ctx, sh_registers + 4), (code >> 8) as u32);
    assert_eq!(read_u32(&ctx, sh_registers + 12), (code >> 40) as u32);
    assert!(write(&mut ctx, header, &0xDEADu32.to_le_bytes()));
    assert_eq!(
        hle_create_shader(&mut ctx, &[dest, header, code]),
        SCE_ERROR_INVALID_ARGUMENT
    );
}

#[test]
fn create_shader_accepts_gta_hull_header_without_program_pair() {
    let mut ctx = ctx_env();
    let header = 0x200u64;
    let destination = 0x100u64;
    let code = 0x1234_5678_9000u64;
    let sh_relative = 0x100u64;
    let sh_registers = header + SHADER_SH_REGISTERS_OFFSET + sh_relative;

    assert!(write(&mut ctx, header, &SHADER_FILE_HEADER.to_le_bytes()));
    assert!(write(&mut ctx, header + 4, &SHADER_VERSION.to_le_bytes()));
    assert!(write(&mut ctx, 
        header + SHADER_SH_REGISTERS_OFFSET,
        &sh_relative.to_le_bytes()
    ));
    assert!(
        write(&mut ctx, sh_registers, &SPI_SHADER_PGM_RSRC1_HS.to_le_bytes())
    );
    assert!(write(&mut ctx, 
        sh_registers + 8,
        &(SPI_SHADER_PGM_RSRC1_HS + 1).to_le_bytes()
    ));
    assert!(write(&mut ctx, header + SHADER_TYPE_OFFSET, &[5]));
    assert!(write(&mut ctx, header + SHADER_NUM_SH_REGISTERS_OFFSET, &[2]));

    assert_eq!(hle_create_shader(&mut ctx, &[destination, header, code]), 0);
    assert_eq!(read_u32(&ctx, sh_registers), SPI_SHADER_PGM_RSRC1_HS);
    let mut object = [0u8; 8];
    assert!(read(&ctx, destination, &mut object));
    assert_eq!(u64::from_le_bytes(object), header);
}

#[test]
fn create_prim_state_copies_specials_and_writes_prim_type() {
    let mut ctx = ctx_env();
    let geometry: u64 = 0x200;
    let specials: u64 = 0x280;
    assert!(
        write(&mut ctx, geometry + SHADER_SPECIALS_OFFSET, &specials.to_le_bytes())
    );
    assert!(write(&mut ctx, 
        specials + SPECIAL_VGT_SHADER_STAGES_EN_OFFSET,
        &[0x11u8, 0, 0, 0, 0xAA, 0, 0, 0]
    ));
    assert!(write(&mut ctx, 
        specials + SPECIAL_GE_CNTL_OFFSET,
        &[0x22u8, 0, 0, 0, 0xBB, 0, 0, 0]
    ));
    let cx = 0x100;
    let uc = 0x140;
    assert_eq!(hle_create_prim_state(&mut ctx, &[cx, uc, 0, geometry, 5]), 0);
    assert_eq!(read_u32(&ctx, cx), 0x11);
    assert_eq!(read_u32(&ctx, cx + 4), 0xAA);
    assert_eq!(read_u32(&ctx, uc), 0x22);
    assert_eq!(read_u32(&ctx, uc + 4), 0xBB);
    assert_eq!(read_u32(&ctx, uc + 16), VGT_PRIMITIVE_TYPE);
    assert_eq!(read_u32(&ctx, uc + 20), 5);
    assert_eq!(
        hle_create_prim_state(&mut ctx, &[cx, uc, 1, geometry, 5]),
        SCE_ERROR_INVALID_ARGUMENT
    );
}

#[test]
fn acb_dispatch_indirect_is_registered_as_the_same_packet() {
    let reg = HleRegistry::new();
    let mut ctx = ctx_env();
    setup_cb(&mut ctx, 0x40, 0x400, 0x800);
    assert_eq!(
        returned(reg.call(&mut ctx, "libSceAgc", "sceAgcAcbDispatchIndirect", &[0x40, 0, 0])),
        Some(0x400)
    );
    assert_eq!(read_u32(&ctx, 0x400), pm4(4, IT_DISPATCH_INDIRECT, R_ZERO));
}

#[test]
fn allocation_fails_when_the_buffer_is_full() {
    let mut ctx = ctx_env();
    let cb = 0x40;
    setup_cb(&mut ctx, cb, 0x400, 0x404);
    assert_eq!(hle_dcb_set_index_size(&mut ctx, &[cb, 2, 0]), 0);
    assert_eq!(
        read_u64(&ctx, cb + CB_CURSOR_UP),
        0x400,
        "cursor not advanced on failure"
    );
    assert_eq!(hle_dcb_set_index_size(&mut ctx, &[0, 2, 0]), 0);
}

#[test]
fn pm4_header_matches_the_agc_encoding() {
    assert_eq!(pm4(2, IT_INDEX_TYPE, R_ZERO), 0xC000_0000 | (0x2A << 8));
    assert_eq!(
        pm4(7, IT_NOP, R_DRAW_INDEX_AUTO),
        0xC000_0000 | (5 << 16) | (0x10 << 8) | (0x04 << 2)
    );
}

#[test]
fn set_index_count_emits_an_index_buffer_size_packet() {
    let mut ctx = ctx_env();
    let cb = 0x40;
    setup_cb(&mut ctx, cb, 0x400, 0x800);
    assert_eq!(hle_dcb_set_index_count(&mut ctx, &[cb, 9]), 0x400);
    assert_eq!(read_u32(&ctx, 0x400), pm4(2, IT_INDEX_BUFFER_SIZE, R_ZERO));
    assert_eq!(read_u32(&ctx, 0x404), 9);
    assert_eq!(read_u64(&ctx, cb + CB_CURSOR_UP), 0x408);
    assert_eq!(hle_dcb_set_index_count(&mut ctx, &[0, 9]), 0, "null dcb");
}

#[test]
fn write_data_accepts_placeholder_null_destination_then_patch_binds_it() {
    let mut ctx = ctx_env();
    let cb = 0x40;
    setup_cb(&mut ctx, cb, 0x400, 0x800);
    let addr = hle_dcb_write_data(&mut ctx, &[cb, 5, 0, 0, 0, 2, 1, 0]);
    assert_eq!(addr, 0x400, "placeholder WRITE_DATA must be emitted");
    assert_eq!(read_u32(&ctx, addr), pm4(6, IT_NOP, R_WRITE_DATA));
    assert_eq!(read_u64(&ctx, addr + 8), 0, "placeholder destination");
    assert_eq!(read_u32(&ctx, addr + 16), 0, "zero-filled payload");
    assert_eq!(
        hle_write_data_patch_address(&mut ctx, &[addr, 0x00AB_CDEF_1000]),
        0
    );
    assert_eq!(read_u64(&ctx, addr + 8), 0x00AB_CDEF_1000);
}

#[test]
fn indirect_multi_predication_and_copy_data_emit_and_advance() {
    let mut ctx = ctx_env();
    let cb = 0x40;
    setup_cb(&mut ctx, cb, 0x400, 0x800);
    let a = hle_dcb_draw_index_indirect_multi(&mut ctx, &[cb, 0x20, 3, 16, 0x9000, 0]);
    assert_eq!(a, 0x400);
    assert_eq!(
        read_u32(&ctx, a),
        pm4(9, IT_DRAW_INDEX_INDIRECT_MULTI, R_ZERO)
    );
    assert_eq!(read_u32(&ctx, a + 4), 0x20, "data offset");
    assert_eq!(read_u32(&ctx, a + 16), 3, "draw count");
    assert_eq!(read_u32(&ctx, a + 20), 0x9000, "count address low");
    assert_eq!(read_u32(&ctx, a + 28), 16, "stride");
    assert_eq!(read_u64(&ctx, cb + CB_CURSOR_UP), 0x400 + 36);
    let b = hle_dcb_draw_indirect_multi(&mut ctx, &[cb, 0x40, 2, 16, 0, 0]);
    assert_eq!(b, 0x424);
    assert_eq!(read_u32(&ctx, b), pm4(9, IT_DRAW_INDIRECT_MULTI, R_ZERO));
    let c = hle_dcb_set_predication(&mut ctx, &[cb, 0x0000_1234_5678, 1]);
    assert_ne!(c, 0);
    assert_eq!(read_u32(&ctx, c), pm4(4, IT_SET_PREDICATION, R_ZERO));
    assert_eq!(read_u32(&ctx, c + 4), 0x1234_5678);
    assert_eq!(read_u32(&ctx, c + 12), 1);
    let d = hle_dcb_copy_data(&mut ctx, &[cb, 0x100, 0xAAAA_0000, 0xBBBB_0000]);
    assert_ne!(d, 0);
    assert_eq!(read_u32(&ctx, d), pm4(6, IT_COPY_DATA, R_ZERO));
    assert_eq!(read_u32(&ctx, d + 4), 0x100);
    assert_eq!(read_u32(&ctx, d + 8), 0xAAAA_0000);
    assert_eq!(read_u32(&ctx, d + 16), 0xBBBB_0000);
    assert_eq!(hle_dcb_draw_index_indirect_multi(&mut ctx, &[0]), 0);
    assert_eq!(hle_dcb_draw_indirect_multi(&mut ctx, &[0]), 0);
    assert_eq!(hle_dcb_set_predication(&mut ctx, &[0]), 0);
    assert_eq!(hle_dcb_copy_data(&mut ctx, &[0]), 0);
}

#[test]
fn sh_register_range_get_size_matches_the_writer() {
    let mut ctx = ctx_env();
    let cb = 0x40;
    setup_cb(&mut ctx, cb, 0x400, 0x800);
    let before = read_u64(&ctx, cb + CB_CURSOR_UP);
    assert_ne!(hle_cb_set_sh_register_range(&mut ctx, &[cb, 0x10, 0, 3]), 0);
    let consumed = (read_u64(&ctx, cb + CB_CURSOR_UP) - before) / 4;
    assert_eq!(
        hle_cb_set_sh_register_range_get_size(&[3]),
        consumed,
        "GetSize must always match what the writer emits"
    );
}

#[test]
fn debug_raise_exception_and_unknown_stub_log_and_return_ok() {
    assert_eq!(hle_debug_raise_exception(), 0);
    assert_eq!(hle_set_range_predication(), 0);
}

#[test]
fn unknown_krz_wek_v120_emits_the_kytyps5_packet() {
    let mut ctx = ctx_env();
    let cb = 0x40;
    setup_cb(&mut ctx, cb, 0x400, 0x800);
    assert_eq!(hle_unknown_krz_wek_v120(&mut ctx, &[cb, 3, 2, 1]), 0x400);
    assert_eq!(read_u32(&ctx, 0x400), 0xc001_7a00);
    assert_eq!(read_u32(&ctx, 0x404), 0x2000_0243);
    assert_eq!(read_u32(&ctx, 0x408), 0x400 | 3 | (2 << 6) | (1 << 14));
    assert_eq!(read_u64(&ctx, cb + CB_CURSOR_UP), 0x40c);
    assert_eq!(hle_unknown_krz_wek_v120(&mut ctx, &[0, 1, 2, 3]), 0);
}

#[test]
fn minecraft_renderdragon_batch_is_registered() {
    let registry = HleRegistry::new();
    for name in [
        "sceAgcGetRegisterDefaults2",
        "sceAgcGetRegisterDefaults2Internal",
        "sceAgcDcbCopyData",
        "sceAgcDcbDrawIndexIndirectMulti",
        "sceAgcDcbDrawIndirectMulti",
        "sceAgcDcbSetIndexCount",
        "sceAgcDcbSetPredication",
        "sceAgcSetRangePredication",
        "sceAgcDebugRaiseException",
        "sceAgcCbSetShRegisterRangeDirectGetSize",
    ] {
        assert!(
            registry.is_implemented("libSceAgc", name),
            "{name} must be registered"
        );
    }
    let overrides = registry.registered_nid_overrides();
    assert!(overrides.iter().any(|(nid, library, name)| *nid == 0x1d5e_23f8_4d0c_0471 && *library == "libSceAgc" && *name == "sceAgcCreateInterpolantMapping"));
    assert!(overrides.iter().any(|(nid, library, name)| *nid == 0xfca4_7359_e915_d76d && *library == "libSceAgc" && *name == "sceAgcUnknownKRzWekV120"));
}

#[test]
fn astrobot_builder_batch_is_registered() {
    let registry = HleRegistry::new();
    for name in [
        "sceAgcAcbDmaData",
        "sceAgcAcbCopyData",
        "sceAgcAcbAcquireMem",
        "sceAgcAcbWaitRegMem",
        "sceAgcAcbPushMarker",
        "sceAgcAcbPopMarker",
        "sceAgcCbSetShRegistersDirect",
        "sceAgcCbDispatchGetSize",
        "sceAgcCbNopGetSize",
        "sceAgcDcbDrawIndexIndirect",
        "sceAgcDcbStallCommandBufferParser",
        "sceAgcDcbGetLodStats",
    ] {
        assert!(
            registry.is_implemented("libSceAgc", name),
            "{name} must be registered"
        );
    }
}

#[test]
fn agc_packet_sizing_probes_are_registered_and_return_byte_sizes() {
    let registry = HleRegistry::new();
    for name in [
        "sceAgcDcbDmaDataGetSize",
        "sceAgcAcbDmaDataGetSize",
        "sceAgcDcbDrawIndexIndirectGetSize",
        "sceAgcDcbSetIndexCountGetSize",
        "sceAgcDcbStallCommandBufferParserGetSize",
        "sceAgcDcbGetLodStatsGetSize",
    ] {
        assert!(
            registry.is_implemented("libSceAgc", name),
            "{name} must be registered"
        );
    }

    assert_eq!(hle_dma_data_get_size(), 8 * 4);
    assert_eq!(hle_dcb_draw_index_indirect_get_size(), 5 * 4);
    assert_eq!(hle_dcb_set_index_count_get_size(), 7 * 4);
    assert_eq!(
        hle_dcb_stall_command_buffer_parser_get_size(),
        2 * 4
    );
    assert_eq!(hle_dcb_get_lod_stats_get_size(&[0]), 5 * 4);
    assert_eq!(hle_dcb_get_lod_stats_get_size(&[8]), 0x10 + 8 * 4);
}

#[test]
fn gta_gen5_packet_sizing_family_is_registered() {
    let registry = HleRegistry::new();
    for name in [
        "sceAgcDcbSetCxRegisterDirectGetSize",
        "sceAgcDcbSetShRegisterDirectGetSize",
        "sceAgcDcbSetUcRegisterDirectGetSize",
        "sceAgcDcbSetCxRegistersIndirectGetSize",
        "sceAgcDcbSetShRegistersIndirectGetSize",
        "sceAgcDcbSetUcRegistersIndirectGetSize",
        "sceAgcDcbSetIndexSizeGetSize",
        "sceAgcDcbSetIndexBufferGetSize",
        "sceAgcDcbSetNumInstancesGetSize",
        "sceAgcDcbDrawIndexGetSize",
        "sceAgcDcbDrawIndexMultiInstancedGetSize",
        "sceAgcDcbDrawIndexAutoGetSize",
        "sceAgcDcbDrawIndexOffsetGetSize",
        "sceAgcDcbDrawIndirectGetSize",
        "sceAgcDcbDispatchIndirectGetSize",
        "sceAgcDcbCondExecGetSize",
        "sceAgcAcbCondExecGetSize",
        "sceAgcDcbWriteDataGetSize",
        "sceAgcDcbWaitOnAddressGetSize",
    ] {
        assert!(
            registry.is_implemented("libSceAgc", name),
            "packet-sizing import {name} must be registered"
        );
    }

    assert_eq!(hle_get_size_2_dwords(), 8);
    assert_eq!(hle_get_size_3_dwords(), 12);
    assert_eq!(hle_get_size_5_dwords(), 20);
    assert_eq!(hle_get_size_6_dwords(), 24);
    assert_eq!(hle_get_size_9_dwords(), 36);
    assert_eq!(hle_dcb_write_data_get_size(&[0]), 16);
    assert_eq!(hle_dcb_write_data_get_size(&[7]), 44);
    assert_eq!(hle_dcb_wait_on_address_get_size(&[0]), 56);
    assert_eq!(hle_dcb_wait_on_address_get_size(&[1]), 64);
    assert_eq!(hle_dcb_wait_on_address_get_size(&[2]), 0);
}

#[test]
fn gta_direct_register_writers_are_registered() {
    let registry = HleRegistry::new();
    for name in [
        "sceAgcDcbSetCxRegisterDirect",
        "sceAgcDcbSetShRegisterDirect",
        "sceAgcDcbSetUcRegisterDirect",
    ] {
        assert!(
            registry.is_implemented("libSceAgc", name),
            "direct-register import {name} must be registered"
        );
    }

    let mut ctx = ctx_env();
    let cb = 0x40;
    setup_cb(&mut ctx, cb, 0x400, 0x800);
    let packed = (0xDEAD_BEEFu64 << 32) | 0x1234_5678;

    let cx = hle_dcb_set_cx_register_direct(&mut ctx, &[cb, packed]);
    assert_eq!(cx, 0x400);
    assert_eq!(read_u32(&ctx, cx), pm4(3, IT_SET_CONTEXT_REG, R_ZERO));
    assert_eq!(read_u32(&ctx, cx + 4), 0x5678);
    assert_eq!(read_u32(&ctx, cx + 8), 0xDEAD_BEEF);

    let sh = hle_dcb_set_sh_register_direct(&mut ctx, &[cb, packed]);
    assert_eq!(sh, 0x40C);
    assert_eq!(read_u32(&ctx, sh), pm4(3, IT_SET_SH_REG, R_ZERO));
    assert_eq!(read_u32(&ctx, sh + 4), 0x5678);
    assert_eq!(read_u32(&ctx, sh + 8), 0xDEAD_BEEF);

    let uc = hle_dcb_set_uc_register_direct(&mut ctx, &[cb, packed]);
    assert_eq!(uc, 0x418);
    assert_eq!(read_u32(&ctx, uc), pm4(3, IT_SET_UCONFIG_REG, R_ZERO));
    assert_eq!(read_u32(&ctx, uc + 4), 0x5678);
    assert_eq!(read_u32(&ctx, uc + 8), 0xDEAD_BEEF);
    assert_eq!(read_u64(&ctx, cb + CB_CURSOR_UP), 0x424);
}

#[test]
fn gta_cond_exec_writers_are_registered() {
    let registry = HleRegistry::new();
    for name in ["sceAgcDcbCondExec", "sceAgcAcbCondExec"] {
        assert!(
            registry.is_implemented("libSceAgc", name),
            "conditional-execution import {name} must be registered"
        );
    }

    let mut ctx = ctx_env();
    let cb = 0x40;
    setup_cb(&mut ctx, cb, 0x400, 0x800);
    let label = 0x0000_00AB_CDEF_1000u64;
    assert_eq!(hle_dcb_cond_exec(&mut ctx, &[cb, label, 0x123]), 0x400);
    assert_eq!(read_u32(&ctx, 0x400), pm4(5, IT_COND_EXEC, R_ZERO));
    assert_eq!(read_u32(&ctx, 0x404), label as u32);
    assert_eq!(read_u32(&ctx, 0x408), (label >> 32) as u32);
    assert_eq!(read_u32(&ctx, 0x40C), 0);
    assert_eq!(read_u32(&ctx, 0x410), 0x123);
    assert_eq!(read_u64(&ctx, cb + CB_CURSOR_UP), 0x414);

    assert_eq!(hle_dcb_cond_exec(&mut ctx, &[cb, 0, 1]), 0);
    assert_eq!(hle_dcb_cond_exec(&mut ctx, &[cb, label + 1, 1]), 0);
    assert_eq!(hle_dcb_cond_exec(&mut ctx, &[cb, label, 0x4000]), 0);
}

#[test]
fn acb_dma_data_emits_seven_dword_packet() {
    let mut ctx = ctx_env();
    let cb = 0x40;
    setup_cb(&mut ctx, cb, 0x400, 0x800);
    let dst = 0x0000_00AB_1234_5678u64;
    let src = 0x0000_00CD_9ABC_DEF0u64;
    let args = [cb, 0x11, 0x22, dst, 0, 0, src, 0x100];
    assert_eq!(hle_acb_dma_data(&mut ctx, &args), 0x400);
    assert_eq!(read_u32(&ctx, 0x400), pm4(7, IT_NOP, R_DMA_DATA));
    assert_eq!(read_u64(&ctx, 0x404), dst, "destination u64 at +4");
    assert_eq!(read_u64(&ctx, 0x40C), src, "source-or-immediate u64 at +12");
    assert_eq!(read_u32(&ctx, 0x414), 0x100, "byte count");
    assert_eq!(
        read_u32(&ctx, 0x418),
        0x11 | (0x22 << 8),
        "sourceSelector | destinationSelector << 8"
    );
    assert_eq!(read_u64(&ctx, cb + CB_CURSOR_UP), 0x400 + 28);
    assert_eq!(hle_acb_dma_data(&mut ctx, &[cb, 0, 0, 0, 0, 0, 0, 0]), 0);
    let too_big = 256 * 1024 * 1024 + 1;
    assert_eq!(hle_acb_dma_data(&mut ctx, &[cb, 0, 0, 0, 0, 0, 0, too_big]), 0);
}

#[test]
fn acb_copy_data_matches_the_dcb_emission() {
    let mut ctx = ctx_env();
    let cb = 0x40;
    setup_cb(&mut ctx, cb, 0x400, 0x800);
    let src = 0xAAAA_0000_0000_1111u64;
    let dst = 0xBBBB_0000_0000_2222u64;
    assert_eq!(hle_acb_copy_data(&mut ctx, &[cb, 0x205, src, dst]), 0x400);
    assert_eq!(read_u32(&ctx, 0x400), pm4(6, IT_COPY_DATA, R_ZERO));
    assert_eq!(read_u32(&ctx, 0x404), 0x205, "control");
    assert_eq!(read_u32(&ctx, 0x408), src as u32);
    assert_eq!(read_u32(&ctx, 0x40C), (src >> 32) as u32);
    assert_eq!(read_u32(&ctx, 0x410), dst as u32);
    assert_eq!(read_u32(&ctx, 0x414), (dst >> 32) as u32);
    assert_eq!(hle_acb_copy_data(&mut ctx, &[0]), 0, "null buffer rejected");
}

#[test]
fn acb_acquire_mem_emits_eight_dword_packet() {
    let mut ctx = ctx_env();
    let cb = 0x40;
    setup_cb(&mut ctx, cb, 0x400, 0x800);
    let base = 0x0000_0012_3456_7800u64;
    assert_eq!(
        hle_acb_acquire_mem(&mut ctx, &[cb, 0xC0DE, base, 0x4000, 400]),
        0x400
    );
    assert_eq!(read_u32(&ctx, 0x400), pm4(8, IT_NOP, R_ACQUIRE_MEM));
    assert_eq!(read_u32(&ctx, 0x404), 0x8000_0000, "fixed DWORD1");
    assert_eq!(read_u32(&ctx, 0x408), 0x40, "sizeBytes >> 8");
    assert_eq!(read_u32(&ctx, 0x40C), 0);
    assert_eq!(read_u32(&ctx, 0x410), (base >> 8) as u32, "base >> 8");
    assert_eq!(read_u32(&ctx, 0x414), 0);
    assert_eq!(read_u32(&ctx, 0x418), 10, "pollCycles / 40");
    assert_eq!(read_u32(&ctx, 0x41C), 0xC0DE, "gcrControl");
    assert_eq!(read_u64(&ctx, cb + CB_CURSOR_UP), 0x420);
    let a = hle_acb_acquire_mem(&mut ctx, &[cb, 0, base, u64::MAX, 0]);
    assert_eq!(read_u32(&ctx, a + 8), 0, "no-size form writes 0");
    assert_eq!(hle_acb_acquire_mem(&mut ctx, &[cb, 0, base, 0x123, 0]), 0);
    assert_eq!(hle_acb_acquire_mem(&mut ctx, &[cb, 0, base | 1, 0x100, 0]), 0);
}

#[test]
fn acb_wait_reg_mem_emits_32_and_64_bit_forms() {
    let mut ctx = ctx_env();
    let cb = 0x40;
    setup_cb(&mut ctx, cb, 0x400, 0x800);
    let addr = 0x0000_00AB_CDEF_0120u64;
    let mask = 0x1111_2222_3333_4444u64;
    let reference = 0x5555_6666_7777_8888u64;
    let args32 = [cb, 0, 3, 1, addr, reference, mask, 400];
    assert_eq!(hle_acb_wait_reg_mem(&mut ctx, &args32), 0x400);
    assert_eq!(read_u32(&ctx, 0x400), pm4(6, IT_NOP, R_WAIT_MEM32));
    assert_eq!(read_u32(&ctx, 0x404), addr as u32);
    assert_eq!(read_u32(&ctx, 0x408), (addr >> 32) as u32);
    assert_eq!(read_u32(&ctx, 0x40C), mask as u32);
    assert_eq!(read_u32(&ctx, 0x410), 3, "compare function");
    assert_eq!(read_u32(&ctx, 0x414), reference as u32);
    assert_eq!(read_u64(&ctx, cb + CB_CURSOR_UP), 0x400 + 24);
    let args64 = [cb, 1, 5, 0, addr, reference, mask, 400];
    assert_eq!(hle_acb_wait_reg_mem(&mut ctx, &args64), 0x418);
    assert_eq!(read_u32(&ctx, 0x418), pm4(9, IT_NOP, R_WAIT_MEM64));
    assert_eq!(read_u32(&ctx, 0x41C), addr as u32);
    assert_eq!(read_u32(&ctx, 0x420), (addr >> 32) as u32);
    assert_eq!(read_u32(&ctx, 0x424), mask as u32);
    assert_eq!(read_u32(&ctx, 0x428), (mask >> 32) as u32);
    assert_eq!(read_u32(&ctx, 0x42C), reference as u32);
    assert_eq!(read_u32(&ctx, 0x430), (reference >> 32) as u32);
    assert_eq!(read_u32(&ctx, 0x434), 5, "compare function");
    assert_eq!(read_u32(&ctx, 0x438), 10, "pollCycles / 40");
    assert_eq!(hle_acb_wait_reg_mem(&mut ctx, &[cb, 2, 0, 0, 0, 0, 0, 0]), 0);
    assert_eq!(hle_acb_wait_reg_mem(&mut ctx, &[cb, 0, 8, 0, 0, 0, 0, 0]), 0);
    assert_eq!(hle_acb_wait_reg_mem(&mut ctx, &[cb, 0, 0, 4, 0, 0, 0, 0]), 0);
}

#[test]
fn cb_set_sh_registers_direct_sorts_and_coalesces_runs() {
    let mut ctx = ctx_env();
    let cb = 0x40;
    setup_cb(&mut ctx, cb, 0x400, 0x800);
    let regs = 0x1000u64;
    for (i, (off, val)) in [(0x0Eu32, 30u32), (0x240, 99), (0x0C, 10), (0x0D, 20)]
        .iter()
        .enumerate()
    {
        assert!(write(&mut ctx, regs + i as u64 * 8, &off.to_le_bytes()));
        assert!(write(&mut ctx, regs + i as u64 * 8 + 4, &val.to_le_bytes()));
    }
    let first = hle_cb_set_sh_registers_direct(&mut ctx, &[cb, regs, 4]);
    assert_eq!(first, 0x400, "returns the FIRST packet address");
    assert_eq!(read_u32(&ctx, 0x400), pm4(5, IT_SET_SH_REG, R_ZERO));
    assert_eq!(read_u32(&ctx, 0x404), 0x0C, "run start offset");
    assert_eq!(read_u32(&ctx, 0x408), 10);
    assert_eq!(read_u32(&ctx, 0x40C), 20);
    assert_eq!(read_u32(&ctx, 0x410), 30);
    assert_eq!(read_u32(&ctx, 0x414), pm4(3, IT_SET_SH_REG, R_ZERO));
    assert_eq!(read_u32(&ctx, 0x418), 0x240);
    assert_eq!(read_u32(&ctx, 0x41C), 99);
    assert_eq!(read_u64(&ctx, cb + CB_CURSOR_UP), 0x420);
    assert_eq!(hle_cb_set_sh_registers_direct(&mut ctx, &[cb, regs, 0]), 0);
    assert_eq!(hle_cb_set_sh_registers_direct(&mut ctx, &[0, regs, 1]), 0);
    assert_eq!(hle_cb_set_sh_registers_direct(&mut ctx, &[cb, 0, 1]), 0);
    assert_eq!(hle_cb_set_sh_registers_direct(&mut ctx, &[cb, regs, 4097]), 0);
}

#[test]
fn cb_get_size_functions_match_their_writers() {
    let mut ctx = ctx_env();
    let cb = 0x40;
    setup_cb(&mut ctx, cb, 0x400, 0x800);
    let before = read_u64(&ctx, cb + CB_CURSOR_UP);
    assert_ne!(hle_cb_dispatch(&mut ctx, &[cb, 1, 1, 1, 0]), 0);
    let dispatch_bytes = read_u64(&ctx, cb + CB_CURSOR_UP) - before;
    assert_eq!(hle_cb_dispatch_get_size(), dispatch_bytes);
    assert_eq!(hle_cb_dispatch_get_size(), 20);
    let before = read_u64(&ctx, cb + CB_CURSOR_UP);
    assert_ne!(hle_cb_nop(&mut ctx, &[cb, 6]), 0);
    let nop_bytes = read_u64(&ctx, cb + CB_CURSOR_UP) - before;
    assert_eq!(hle_cb_nop_get_size(&[6]), nop_bytes);
    assert_eq!(hle_cb_nop_get_size(&[6]), 24);
}

#[test]
fn dcb_draw_index_indirect_emits_five_dword_packet() {
    let mut ctx = ctx_env();
    let cb = 0x40;
    setup_cb(&mut ctx, cb, 0x400, 0x800);
    assert_eq!(
        hle_dcb_draw_index_indirect(&mut ctx, &[cb, 0x120, 0xABCD]),
        0x400
    );
    assert_eq!(
        read_u32(&ctx, 0x400),
        pm4(5, IT_DRAW_INDEX_INDIRECT, R_ZERO)
    );
    assert_eq!(read_u32(&ctx, 0x404), 0x120, "indirect-args data offset");
    assert_eq!(read_u32(&ctx, 0x408), 0);
    assert_eq!(read_u32(&ctx, 0x40C), 0);
    assert_eq!(read_u32(&ctx, 0x410), 0xABCD, "modifier");
    assert_eq!(read_u64(&ctx, cb + CB_CURSOR_UP), 0x400 + 20);
    assert_eq!(hle_dcb_draw_index_indirect(&mut ctx, &[0]), 0);
}

#[test]
fn stall_parser_and_lod_stats_emit_correctly() {
    let mut ctx = ctx_env();
    let cb = 0x40;
    setup_cb(&mut ctx, cb, 0x400, 0x800);
    assert_eq!(
        hle_dcb_stall_command_buffer_parser(&mut ctx, &[cb, 0, 0x9000, 7]),
        0x400
    );
    assert_eq!(read_u32(&ctx, 0x400), pm4(2, IT_NOP, R_ZERO));
    assert_eq!(read_u32(&ctx, 0x404), 0);
    assert_eq!(hle_dcb_stall_command_buffer_parser(&mut ctx, &[cb, 2]), 0);
    let dst = 0x0000_00AB_1234_5678u64;
    let args = [cb, 2, dst, 0xFEED, 0x3C, 1, 1, 0x12];
    assert_eq!(hle_dcb_get_lod_stats(&mut ctx, &args), 0x408);
    assert_eq!(read_u32(&ctx, 0x408), pm4(5, IT_GET_LOD_STATS, R_ZERO));
    assert_eq!(read_u32(&ctx, 0x40C), 0xFEED, "control");
    assert_eq!(
        read_u32(&ctx, 0x410),
        (dst as u32) & !0x3F,
        "dst lo & ~0x3F"
    );
    assert_eq!(read_u32(&ctx, 0x414), (dst >> 32) as u32, "dst hi");
    assert_eq!(
        read_u32(&ctx, 0x418),
        (2 << 28) | (1 << 19) | (1 << 18) | (0x3C << 10) | (0x12 << 2),
        "cachePolicy<<28 | enable<<19 | reset<<18 | mask<<10 | select<<2"
    );
    assert_eq!(read_u64(&ctx, cb + CB_CURSOR_UP), 0x408 + 20);
}

#[test]
fn gta5_get_size_family_returns_reference_byte_sizes() {
    assert_eq!(hle_get_size_4_dwords(), 16);
    assert_eq!(hle_event_write_get_size(), 16);
    assert_eq!(hle_atomic_mem_get_size(), 36);
    assert_eq!(hle_atomic_gds_get_size(), 36);
    assert_eq!(hle_prime_utcl2_get_size(), 20);
    assert_eq!(hle_cb_branch_get_size(), 56);
    assert_eq!(hle_cb_cond_write_get_size(), 36);
    assert_eq!(hle_dcb_context_state_op_get_size(), 8);
    assert_eq!(hle_cb_set_registers_direct_get_size(&[7]), 84);
    assert_eq!(hle_cb_set_registers_direct_get_size(&[0]), 0);
    assert_eq!(hle_cb_set_uc_register_range_get_size(&[5]), 28);
    assert_eq!(hle_dcb_jump_get_size(), 16);
    assert_eq!(hle_dcb_rewind_get_size(), 8);
    assert_eq!(hle_queue_eop_action_get_size(), 32);
    assert_eq!(hle_dcb_wait_on_address_get_size(&[0]), 56);
    assert_eq!(hle_dcb_wait_on_address_get_size(&[1]), 64);
}

#[test]
fn rewind_emits_and_patches_the_stall_bit() {
    let mut ctx = ctx_env();
    let cb = 0x40;
    setup_cb(&mut ctx, cb, 0x400, 0x800);
    assert_eq!(hle_dcb_rewind(&mut ctx, &[cb, 1]), 0x400);
    assert_eq!(read_u32(&ctx, 0x400), pm4(2, IT_REWIND, R_ZERO));
    assert_eq!(read_u32(&ctx, 0x404), 1 << 31, "stall bit armed");
    assert_eq!(read_u64(&ctx, cb + CB_CURSOR_UP), 0x408, "2 DWORDs");
    assert_eq!(hle_rewind_patch_set_rewind_state(&mut ctx, &[0x400, 0]), 0);
    assert_eq!(read_u32(&ctx, 0x404), 0);
    assert_eq!(hle_rewind_patch_set_rewind_state(&mut ctx, &[0x400, 1]), 0);
    assert_eq!(read_u32(&ctx, 0x404), 1 << 31);
    assert!(write(&mut ctx, 0x500, &pm4(2, IT_NOP, R_ZERO).to_le_bytes()));
    assert_eq!(
        hle_rewind_patch_set_rewind_state(&mut ctx, &[0x500, 0]),
        SCE_ERROR_INVALID_ARGUMENT
    );
    assert_eq!(hle_dcb_rewind(&mut ctx, &[0, 1]), 0, "null cb → 0");
}

#[test]
fn workload_markers_emit_kyty_fixed_packets() {
    let mut ctx = ctx_env();
    let cb = 0x40;
    setup_cb(&mut ctx, cb, 0x400, 0xC00);
    assert!(write(&mut ctx, 0x300, &1u32.to_le_bytes()));
    assert!(write(&mut ctx, 0x304, &40u32.to_le_bytes()));
    assert_eq!(
        hle_dcb_set_workloads_active(&mut ctx, &[cb, 3, 0x300, 2]),
        0x400
    );
    assert_eq!(read_u32(&ctx, 0x400), pm4(18, IT_NOP, R_ZERO));
    assert_eq!(read_u32(&ctx, 0x404), 3, "stream id");
    let mask = (1u64 << 1) | (1u64 << 40);
    assert_eq!(read_u32(&ctx, 0x408), mask as u32, "mask lo");
    assert_eq!(read_u32(&ctx, 0x40C), (mask >> 32) as u32, "mask hi");
    assert_eq!(read_u64(&ctx, cb + CB_CURSOR_UP), 0x400 + 18 * 4);
    assert!(write(&mut ctx, 0x304, &1u32.to_le_bytes()));
    assert_eq!(hle_dcb_set_workloads_active(&mut ctx, &[cb, 3, 0x300, 2]), 0);
    assert_eq!(hle_dcb_set_workloads_active(&mut ctx, &[cb, 0, 0x300, 1]), 0);
    assert_eq!(hle_dcb_set_workloads_active(&mut ctx, &[cb, 32, 0x300, 1]), 0);
    let complete = hle_dcb_set_workload_complete(&mut ctx, &[cb, 3, 40]);
    assert_eq!(complete, 0x400 + 18 * 4);
    assert_eq!(read_u32(&ctx, complete), pm4(12, IT_NOP, R_ZERO));
    assert_eq!(read_u32(&ctx, complete + 4), 3, "stream id");
    assert_eq!(read_u32(&ctx, complete + 8), 40, "workload id");
    let clear = !(1u64 << 40);
    assert_eq!(read_u32(&ctx, complete + 12), clear as u32);
    assert_eq!(read_u32(&ctx, complete + 16), (clear >> 32) as u32);
    assert_eq!(hle_dcb_set_workload_complete(&mut ctx, &[cb, 3, 64]), 0);
    let inactive = hle_dcb_set_workload_stream_inactive(&mut ctx, &[cb, 3]);
    assert_eq!(inactive, complete + 12 * 4);
    assert_eq!(read_u32(&ctx, inactive), pm4(2, IT_NOP, R_ZERO));
    assert_eq!(read_u32(&ctx, inactive + 4), 3);
    assert_eq!(hle_dcb_set_workload_stream_inactive(&mut ctx, &[cb, 0]), 0);
}

#[test]
fn draw_index_multi_instanced_emits_nine_dwords() {
    let mut ctx = ctx_env();
    let cb = 0x40;
    setup_cb(&mut ctx, cb, 0x400, 0x800);
    let index_addr = 0x0000_0012_0000_4000u64;
    let object_ids = 0x0000_0034_0000_8000u64;
    let ret =
        hle_dcb_draw_index_multi_instanced(&mut ctx, &[cb, 6, index_addr, object_ids, 0, 0x100]);
    assert_eq!(ret, 0x400);
    assert_eq!(
        read_u32(&ctx, 0x400),
        pm4(9, IT_DISPATCH_DRAW_PREAMBLE, R_ZERO)
    );
    assert_eq!(read_u32(&ctx, 0x404), 6, "index count");
    assert_eq!(read_u32(&ctx, 0x408), 0x4000, "index lo");
    assert_eq!(read_u32(&ctx, 0x40C), 0x12, "index hi");
    assert_eq!(read_u32(&ctx, 0x410), 1, "zero instances → 1");
    assert_eq!(read_u32(&ctx, 0x414), 0x8000, "objects lo");
    assert_eq!(read_u32(&ctx, 0x418), 0x34, "objects hi");
    assert_eq!(read_u32(&ctx, 0x41C), 0, "raw instance count");
    assert_eq!(read_u32(&ctx, 0x420), 0x20 | 0x80, "initiator | 0x80");
    assert_eq!(read_u64(&ctx, cb + CB_CURSOR_UP), 0x400 + 36);
    assert_eq!(
        hle_dcb_draw_index_multi_instanced(&mut ctx, &[cb, 6, index_addr | 1, object_ids, 1, 0]),
        0
    );
    assert_eq!(
        hle_dcb_draw_index_multi_instanced(&mut ctx, &[cb, 6, 0, object_ids, 1, 0]),
        0
    );
}

#[test]
fn cb_uc_register_writers_emit_uconfig_packets() {
    let mut ctx = ctx_env();
    let cb = 0x40;
    setup_cb(&mut ctx, cb, 0x400, 0x800);
    for (i, v) in [0xAAu32, 0xBB, 0xCC].iter().enumerate() {
        assert!(write(&mut ctx, 0x300 + i as u64 * 4, &v.to_le_bytes()));
    }
    let ret = hle_cb_set_uc_register_range(&mut ctx, &[cb, 0x1_0242, 0x300, 3]);
    assert_eq!(ret, 0x400);
    assert_eq!(read_u32(&ctx, 0x400), pm4(5, IT_SET_UCONFIG_REG, R_ZERO));
    assert_eq!(read_u32(&ctx, 0x404), 0x0242, "offset & 0xFFFF");
    assert_eq!(read_u32(&ctx, 0x408), 0xAA);
    assert_eq!(read_u32(&ctx, 0x40C), 0xBB);
    assert_eq!(read_u32(&ctx, 0x410), 0xCC);
    assert_eq!(hle_cb_set_uc_register_range_get_size(&[3]), 5 * 4);
    let regs = 0x340u64;
    for (i, (off, val)) in [(0x10u32, 1u32), (0x20, 3), (0x11, 2)].iter().enumerate() {
        assert!(write(&mut ctx, regs + i as u64 * 8, &off.to_le_bytes()));
        assert!(write(&mut ctx, regs + i as u64 * 8 + 4, &val.to_le_bytes()));
    }
    let first = hle_cb_set_uc_registers_direct(&mut ctx, &[cb, regs, 3]);
    assert_eq!(first, 0x414);
    assert_eq!(read_u32(&ctx, first), pm4(4, IT_SET_UCONFIG_REG, R_ZERO));
    assert_eq!(read_u32(&ctx, first + 4), 0x10);
    assert_eq!(read_u32(&ctx, first + 8), 1);
    assert_eq!(read_u32(&ctx, first + 12), 2);
    assert_eq!(
        read_u32(&ctx, first + 16),
        pm4(3, IT_SET_UCONFIG_REG, R_ZERO)
    );
    assert_eq!(read_u32(&ctx, first + 20), 0x20);
    assert_eq!(read_u32(&ctx, first + 24), 3);
    assert!(hle_cb_set_registers_direct_get_size(&[3]) >= 7 * 4);
}

#[test]
fn prime_utcl2_emits_size_consistent_nop_hint() {
    let mut ctx = ctx_env();
    let cb = 0x40;
    setup_cb(&mut ctx, cb, 0x400, 0x800);
    let ret = hle_prime_utcl2(&mut ctx, &[cb, 0x9000, 4]);
    assert_eq!(ret, 0x400);
    assert_eq!(read_u32(&ctx, 0x400), pm4(5, IT_NOP, R_ZERO));
    for i in 1..5u64 {
        assert_eq!(read_u32(&ctx, 0x400 + i * 4), 0);
    }
    let advanced = read_u64(&ctx, cb + CB_CURSOR_UP) - 0x400;
    assert_eq!(advanced, hle_prime_utcl2_get_size());
    assert_eq!(hle_prime_utcl2(&mut ctx, &[0]), 0);
}

#[test]
fn cond_exec_patches_adjust_span_and_label() {
    let mut ctx = ctx_env();
    let cb = 0x40;
    setup_cb(&mut ctx, cb, 0x400, 0x800);
    let packet = hle_dcb_cond_exec(&mut ctx, &[cb, 0x9000, 2]);
    assert_eq!(packet, 0x400);
    let end = packet + 5 * 4 + 6 * 4;
    assert_eq!(hle_cond_exec_patch_set_end(&mut ctx, &[packet, end]), 0);
    assert_eq!(read_u32(&ctx, packet + 16), 6);
    assert_eq!(
        hle_cond_exec_patch_set_end(&mut ctx, &[packet, packet]),
        SCE_ERROR_INVALID_ARGUMENT
    );
    assert_eq!(
        hle_cond_exec_patch_set_command_address(&mut ctx, &[packet, 0x00AB_0000_9004]),
        0
    );
    assert_eq!(read_u32(&ctx, packet + 4), 0x9004);
    assert_eq!(read_u32(&ctx, packet + 8), 0xAB);
    assert_eq!(
        hle_cond_exec_patch_set_command_address(&mut ctx, &[packet, 0x9002]),
        SCE_ERROR_INVALID_ARGUMENT
    );
    assert!(write(&mut ctx, 0x500, &pm4(2, IT_NOP, R_ZERO).to_le_bytes()));
    assert_eq!(
        hle_cond_exec_patch_set_end(&mut ctx, &[0x500, 0x600]),
        SCE_ERROR_INVALID_ARGUMENT
    );
}

#[test]
fn queue_eop_patches_rewrite_release_mem_fields() {
    let mut ctx = ctx_env();
    let cb = 0x40;
    setup_cb(&mut ctx, cb, 0x400, 0x800);
    let packet = hle_cb_release_mem(&mut ctx, &[cb, 0x28, 0x123, 0, 1, 0x9100, 1, 0xDEAD_BEEF, 0, 0, 2, 7]);
    assert_eq!(packet, 0x400);
    assert_eq!(
        hle_queue_eop_patch_data(&mut ctx, &[packet, 1, 1, 0x1111_2222_3333_4444]),
        0
    );
    assert_eq!(read_u64(&ctx, packet + 20), 0x1111_2222_3333_4444);
    assert_eq!(
        hle_queue_eop_patch_data(&mut ctx, &[packet, 5, 1, 0xAABB_CCDD]),
        0
    );
    assert_eq!(read_u64(&ctx, packet + 20), (3u64 << 24) | 0x00BB_CCDD);
    let word2_before = read_u32(&ctx, packet + 8);
    assert_eq!(hle_queue_eop_patch_gcr_cntl(&mut ctx, &[packet, 0x0456]), 0);
    assert_eq!(
        read_u32(&ctx, packet + 8),
        (word2_before & 0xFFFF_0000) | 0x0456
    );
    let word1_before = read_u32(&ctx, packet + 4);
    assert_eq!(hle_queue_eop_patch_type(&mut ctx, &[packet, 0x2F]), 0);
    assert_eq!(read_u32(&ctx, packet + 4), (word1_before & !0xFF) | 0x2F);
    assert!(write(&mut ctx, 0x500, &pm4(2, IT_NOP, R_ZERO).to_le_bytes()));
    for result in [
        hle_queue_eop_patch_data(&mut ctx, &[0x500, 0, 0, 0]),
        hle_queue_eop_patch_gcr_cntl(&mut ctx, &[0x500, 0]),
        hle_queue_eop_patch_type(&mut ctx, &[0x500, 0]),
    ] {
        assert_eq!(result, SCE_ERROR_INVALID_ARGUMENT);
    }
}

#[test]
fn wait_reg_mem_patches_cover_all_three_layouts() {
    let mut ctx = ctx_env();
    let cb = 0x40;
    setup_cb(&mut ctx, cb, 0x400, 0xC00);
    let wait32 = hle_dcb_wait_reg_mem(&mut ctx, &[cb, 0, 3, 0, 0, 0x9000, 0x11, 0xFF, 0]);
    assert_eq!(wait32, 0x400);
    assert_eq!(hle_wait_reg_mem_patch_reference(&mut ctx, &[wait32, 0x77]), 0);
    assert_eq!(read_u32(&ctx, wait32 + 20), 0x77);
    assert_eq!(
        hle_wait_reg_mem_patch_compare_function(&mut ctx, &[wait32, 5]),
        0
    );
    assert_eq!(read_u32(&ctx, wait32 + 16) & 0xFF, 5);
    assert_eq!(read_u32(&ctx, wait32 + 16) >> 8, 0, "op bits preserved");
    let wait64 = hle_dcb_wait_reg_mem(&mut ctx, &[cb, 1, 3, 0, 0, 0x9000, 0x11, 0xFF, 0]);
    assert_eq!(
        hle_wait_reg_mem_patch_reference(&mut ctx, &[wait64, 0x8888_0000_1111_2222]),
        0
    );
    assert_eq!(read_u64(&ctx, wait64 + 20), 0x8888_0000_1111_2222);
    assert_eq!(
        hle_wait_reg_mem_patch_compare_function(&mut ctx, &[wait64, 2]),
        0
    );
    assert_eq!(read_u32(&ctx, wait64 + 28) & 0xFF, 2);
    let standard = hle_dcb_wait_reg_mem(&mut ctx, &[cb, 0, 3, 2, 0, 0x9000, 0x11, 0xFF, 0]);
    assert_eq!(hle_wait_reg_mem_patch_reference(&mut ctx, &[standard, 0x55]), 0);
    assert_eq!(read_u32(&ctx, standard + 16), 0x55);
    assert_eq!(
        hle_wait_reg_mem_patch_compare_function(&mut ctx, &[standard, 1]),
        0
    );
    assert_eq!(read_u32(&ctx, standard + 4) & 0xFF, 1);
    assert!(write(&mut ctx, 0x700, &pm4(2, IT_NOP, R_ZERO).to_le_bytes()));
    assert_eq!(
        hle_wait_reg_mem_patch_reference(&mut ctx, &[0x700, 0]),
        SCE_ERROR_INVALID_ARGUMENT
    );
}

#[test]
fn dma_data_patch_src_writes_source_field() {
    let mut ctx = ctx_env();
    let cb = 0x40;
    setup_cb(&mut ctx, cb, 0x400, 0x800);
    let packet = hle_dcb_dma_data(&mut ctx, &[cb, 1, 0, 2, 0x9100, 0, 0, 0x9200, 64, 0, 1, 0]);
    assert_eq!(packet, 0x400);
    assert_eq!(
        hle_dma_data_patch_src(&mut ctx, &[packet, 0x00CD_1234_5678_0000]),
        0
    );
    assert_eq!(read_u64(&ctx, packet + 24), 0x00CD_1234_5678_0000);
    assert!(write(&mut ctx, 0x600, &pm4(2, IT_NOP, R_ZERO).to_le_bytes()));
    assert_eq!(
        hle_dma_data_patch_src(&mut ctx, &[0x600, 1]),
        SCE_ERROR_INVALID_ARGUMENT
    );
}

#[test]
fn branch_patch_rejects_jump_packets() {
    let mut ctx = ctx_env();
    let cb = 0x40;
    setup_cb(&mut ctx, cb, 0x400, 0x800);
    let branch = hle_cb_branch(&mut ctx, &[cb, 0, 3, 0x9000, 0, 0, 0, 0x9100, 4, 0, 0x9200, 4]);
    assert_eq!(branch, 0x400);
    assert_eq!(
        hle_branch_patch_set_compare_address(&mut ctx, &[branch, 0x00EF_0000_A00F]),
        0
    );
    assert_eq!(read_u32(&ctx, branch + 8), 0xA008, "lo &~7");
    assert_eq!(read_u32(&ctx, branch + 12), 0xEF, "hi");
    let jump = hle_dcb_jump(&mut ctx, &[cb, 0x9300, 8]);
    assert_eq!(
        hle_branch_patch_set_compare_address(&mut ctx, &[jump, 0xA000]),
        SCE_ERROR_INVALID_ARGUMENT
    );
}

#[test]
fn update_prim_state_rewrites_gs_out_and_prim_type() {
    let mut ctx = ctx_env();
    let cx = 0x100u64;
    let uc = 0x180u64;
    assert!(write(&mut ctx, cx + 4, &0u32.to_le_bytes()));
    assert!(write(&mut ctx, cx + 12, &0xFFFF_FFF8u32.to_le_bytes()));
    assert!(write(&mut ctx, uc + 20, &0xFFFF_FFE0u32.to_le_bytes()));
    assert_eq!(hle_update_prim_state(&mut ctx, &[cx, uc, 2]), 0);
    assert_eq!(read_u32(&ctx, cx + 12), 0xFFFF_FFF8 | 1);
    assert_eq!(read_u32(&ctx, uc + 20), 0xFFFF_FFE0 | 2);
    assert!(write(&mut ctx, cx + 4, &0x4u32.to_le_bytes()));
    assert!(write(&mut ctx, cx + 12, &0u32.to_le_bytes()));
    assert_eq!(hle_update_prim_state(&mut ctx, &[cx, uc, 7]), 0);
    assert_eq!(read_u32(&ctx, cx + 12), 0, "GS-driven: untouched");
    assert_eq!(read_u32(&ctx, uc + 20), (0xFFFF_FFE0u32 | 2) & !0x1F | 7);
    assert!(write(&mut ctx, cx + 4, &0u32.to_le_bytes()));
    assert_eq!(hle_update_prim_state(&mut ctx, &[cx, 0, 7]), 0);
    assert_eq!(read_u32(&ctx, cx + 12), 3);
    assert_eq!(hle_update_prim_state(&mut ctx, &[0, 0, 4]), 0, "nulls legal");
}

#[test]
fn get_data_packet_payload_range_decodes_headers() {
    let mut ctx = ctx_env();
    let range = 0x200u64;
    let command = 0x300u64;
    assert!(
        write(&mut ctx, command, &pm4(6, IT_NOP, R_ZERO).to_le_bytes())
    );
    assert_eq!(
        hle_get_data_packet_payload_range(&mut ctx, &[range, command, 1]),
        0
    );
    assert_eq!(read_u64(&ctx, range), command + 8, "type!=0: skip 2 DWORDs");
    assert_eq!(read_u64(&ctx, range + 8), 16);
    assert_eq!(
        hle_get_data_packet_payload_range(&mut ctx, &[range, command, 0]),
        0
    );
    assert_eq!(read_u64(&ctx, range), command + 4, "type==0: skip 1 DWORD");
    assert_eq!(read_u64(&ctx, range + 8), 20);
    assert!(write(&mut ctx, command, &0x3FFF_0000u32.to_le_bytes()));
    assert_eq!(
        hle_get_data_packet_payload_range(&mut ctx, &[range, command, 0]),
        0
    );
    assert_eq!(read_u64(&ctx, range), 0);
    assert_eq!(read_u64(&ctx, range + 8), 0);
    assert_eq!(
        hle_get_data_packet_payload_range(&mut ctx, &[0, command, 0]),
        SCE_ERROR_INVALID_ARGUMENT
    );
}

#[test]
fn honest_error_surface_returns_documented_failures() {
    assert_eq!(hle_atomic_mem_unavailable(), 0);
    assert_eq!(hle_mem_semaphore_unavailable(), 0);
    assert_eq!(hle_cb_cond_write_unavailable(), 0);
    assert_eq!(hle_set_index_indirect_args_unavailable(), 0);
    assert_eq!(hle_get_default_cx_state_flat_unavailable(), 0);
    assert_eq!(hle_set_nop_unavailable(), 0);
    assert_eq!(hle_get_gs_oversubscription_unavailable(), 0);
    assert_eq!(
        hle_set_amm_semaphore_memory_unavailable(),
        SCE_ERROR_INVALID_ARGUMENT
    );
    assert_eq!(hle_get_semaphore_label_unavailable(), 0);
}

#[test]
fn gta5_phase_a_names_resolve_in_the_registry() {
    let mut registry = HleRegistry::new();
    register(&mut registry);
    let registered: std::collections::HashSet<String> = registry
        .registered_names()
        .into_iter()
        .filter(|(library, _)| *library == "libSceAgc")
        .map(|(_, function)| function.to_string())
        .collect();
    for name in [
        "sceAgcDcbEventWriteGetSize",
        "sceAgcAcbEventWriteGetSize",
        "sceAgcDcbCopyDataGetSize",
        "sceAgcAcbCopyDataGetSize",
        "sceAgcAcbDispatchIndirectGetSize",
        "sceAgcAcbJumpGetSize",
        "sceAgcAcbRewindGetSize",
        "sceAgcAcbWaitOnAddressGetSize",
        "sceAgcDcbAtomicMemGetSize",
        "sceAgcAcbAtomicMemGetSize",
        "sceAgcDcbAtomicGdsGetSize",
        "sceAgcAcbAtomicGdsGetSize",
        "sceAgcDcbPrimeUtcl2GetSize",
        "sceAgcAcbPrimeUtcl2GetSize",
        "sceAgcCbBranchGetSize",
        "sceAgcCbCondWriteGetSize",
        "sceAgcCbSetShRegistersDirectGetSize",
        "sceAgcCbSetUcRegistersDirectGetSize",
        "sceAgcCbSetUcRegisterRangeDirectGetSize",
        "sceAgcDcbSetBaseDrawIndirectArgsGetSize",
        "sceAgcDcbSetBaseDispatchIndirectArgsGetSize",
        "sceAgcDcbSetIndexIndirectArgsGetSize",
        "sceAgcDcbSetPredicationDisableGetSize",
        "sceAgcDcbSetZPassPredicationEnableGetSize",
        "sceAgcDcbSetBoolPredicationEnableGetSize",
        "sceAgcDcbBeginOcclusionQueryGetSize",
        "sceAgcDcbEndOcclusionQueryGetSize",
        "sceAgcDcbQueueEndOfShaderActionGetSize",
        "sceAgcAcbQueueEndOfShaderActionGetSize",
        "sceAgcDcbContextStateOpGetSize",
        "sceAgcDcbDrawIndexIndirectMultiGetSize",
        "sceAgcDcbDrawIndirectMultiGetSize",
        "sceAgcDcbRewind",
        "sceAgcAcbRewind",
        "sceAgcAcbJump",
        "sceAgcAcbSetFlip",
        "sceAgcAcbSetMarker",
        "sceAgcAcbWaitUntilSafeForRendering",
        "sceAgcDcbSetWorkloadsActive",
        "sceAgcAcbSetWorkloadsActive",
        "sceAgcDcbSetWorkloadComplete",
        "sceAgcAcbSetWorkloadComplete",
        "sceAgcDcbSetWorkloadStreamInactive",
        "sceAgcAcbSetWorkloadStreamInactive",
        "sceAgcDcbDrawIndexMultiInstanced",
        "sceAgcCbSetUcRegisterRangeDirect",
        "sceAgcCbSetUcRegistersDirect",
        "sceAgcDcbPrimeUtcl2",
        "sceAgcAcbPrimeUtcl2",
        "sceAgcQueueEndOfPipeActionPatchData",
        "sceAgcQueueEndOfPipeActionPatchGcrCntl",
        "sceAgcQueueEndOfPipeActionPatchType",
        "sceAgcCondExecPatchSetEnd",
        "sceAgcAsyncCondExecPatchSetEnd",
        "sceAgcCondExecPatchSetCommandAddress",
        "sceAgcAsyncCondExecPatchSetCommandAddress",
        "sceAgcRewindPatchSetRewindState",
        "sceAgcAsyncRewindPatchSetRewindState",
        "sceAgcBranchPatchSetCompareAddress",
        "sceAgcWaitRegMemPatchReference",
        "sceAgcWaitRegMemPatchCompareFunction",
        "sceAgcDmaDataPatchSetSrcAddressOrOffsetOrImmediate",
        "sceAgcSetShRegIndirectPatchSetNumRegisters",
        "sceAgcSetUcRegIndirectPatchSetNumRegisters",
        "sceAgcUpdatePrimState",
        "sceAgcGetDataPacketPayloadRange",
        "sceAgcDcbAtomicMem",
        "sceAgcAcbAtomicMem",
        "sceAgcDcbMemSemaphore",
        "sceAgcAcbMemSemaphore",
        "sceAgcCbCondWrite",
        "sceAgcDcbSetIndexIndirectArgs",
        "sceAgcGetDefaultCxStateFlat",
        "sceAgcSetNop",
        "sceAgcGetGsOversubscription",
        "sceAgcSetAmmSemaphoreMemory",
        "sceAgcGetSemaphoreLabel",
    ] {
        assert!(registered.contains(name), "{name} must be registered");
    }
    let incomplete = registry.incomplete_registrations();
    for name in ["sceAgcDcbAtomicMem", "sceAgcCbCondWrite", "sceAgcSetNop"] {
        assert!(
            incomplete
                .iter()
                .any(|(library, function, _)| *library == "libSceAgc" && *function == name),
            "{name} must be flagged incomplete"
        );
    }
}

#[test]
fn packets_stand_end_to_end() {
    let mut ctx = ctx_env();
    setup_cb(&mut ctx, 0x40, 0x100, 0x180);
    let first = hle_dcb_jump(&mut ctx, &[0x40, 0x1234_5678_9ABC, 7]);
    let second = hle_dcb_rewind(&mut ctx, &[0x40, 1]);
    assert_eq!((first, second), (0x100, 0x110));
    // The second packet left the first as it was.
    assert_eq!(read_u32(&ctx, 0x100), pm4(4, IT_INDIRECT_BUFFER, R_ZERO));
    assert_eq!(read_u32(&ctx, 0x104), 0x5678_9ABC);
    assert_eq!(read_u32(&ctx, 0x108), 0x1234);
    assert_eq!(read_u32(&ctx, 0x10C), 7);
    assert_eq!(read_u32(&ctx, 0x110), pm4(2, IT_REWIND, R_ZERO));
    assert_eq!(read_u32(&ctx, 0x114), 0x8000_0000);
    assert_eq!(read_u64(&ctx, 0x40 + CB_CURSOR_UP), 0x118);
}

#[test]
fn a_nop_reports_its_length() {
    for n in [2u64, 3, 0x100, 0x4000, 0x4001] {
        let mut ctx = ctx_of(0x1_2000);
        setup_cb(&mut ctx, 0x40, 0x100, 0x1_1000);
        let at = hle_cb_nop(&mut ctx, &[0x40, n]);
        assert_eq!(at, 0x100);
        assert_eq!(hle_get_packet_size(&mut ctx, &[at]), n);
        assert_eq!(read_u64(&ctx, 0x40 + CB_CURSOR_UP), 0x100 + 4 * n);
    }
    // The marker is one DWORD whatever its low byte holds, and nothing else is.
    let mut ctx = ctx_env();
    assert!(write(&mut ctx, 0x100, &0x3FFF_10ABu32.to_le_bytes()));
    assert_eq!(hle_get_packet_size(&mut ctx, &[0x100]), 1);
    assert!(write(&mut ctx, 0x100, &0xFFFF_1000u32.to_le_bytes()));
    assert_eq!(hle_get_packet_size(&mut ctx, &[0x100]), 0x4001);
}

#[test]
fn draws_are_sized_by_name() {
    let registry = HleRegistry::new();
    let ib = 0x00AB_CDEF_1234_5678u64;
    let auto = DRAW_AUTO_MODIFIER;
    for (builder, args, bytes) in [
        ("sceAgcDcbSetIndexBuffer", vec![0x40, ib, 6], 20),
        ("sceAgcDcbDrawIndexAuto", vec![0x40, 3, auto], 28),
        ("sceAgcDcbDrawIndex", vec![0x40, 6, ib, auto], 40),
        ("sceAgcDcbSetNumInstances", vec![0x40, 8], 8),
        ("sceAgcDcbSetIndexSize", vec![0x40, 1, 0], 8),
        ("sceAgcDcbSetCxRegistersIndirect", vec![0x40, 0x1000, 2], 16),
        ("sceAgcDcbSetShRegistersIndirect", vec![0x40, 0x1000, 2], 16),
        ("sceAgcDcbSetUcRegistersIndirect", vec![0x40, 0x1000, 2], 16),
        ("sceAgcDcbJump", vec![0x40, 0x1000, 7], 16),
        ("sceAgcAcbJump", vec![0x40, 0x1000, 7], 16),
    ] {
        let mut ctx = ctx_env();
        setup_cb(&mut ctx, 0x40, 0x400, 0x800);
        let at = returned(registry.call(&mut ctx, "libSceAgc", builder, &args));
        assert_eq!(at, Some(0x400), "{builder}");
        let size = format!("{builder}GetSize");
        assert_eq!(
            returned(registry.call(&mut ctx, "libSceAgc", &size, &[])),
            Some(bytes),
            "{size}"
        );
        assert_eq!(read_u64(&ctx, 0x40 + CB_CURSOR_UP), 0x400 + bytes, "{builder}");
    }
}

#[test]
fn payload_queries_agree_on_the_address() {
    for (header, kind) in [
        (pm4(6, IT_NOP, R_ZERO), 0u64),
        (pm4(6, IT_NOP, R_ZERO), 1),
        (0x3FFF_0000, 0),
        (0xC001_0000, 0),
    ] {
        let mut ctx = ctx_env();
        assert!(write(&mut ctx, 0x300, &header.to_le_bytes()));
        assert_eq!(hle_get_data_packet_payload_address(&mut ctx, &[0x100, 0x300, kind]), 0);
        assert_eq!(hle_get_data_packet_payload_range(&mut ctx, &[0x200, 0x300, kind]), 0);
        assert_eq!(read_u64(&ctx, 0x100), read_u64(&ctx, 0x200));
    }
}

#[test]
fn a_register_list_takes_a_packet_for_each_run() {
    let mut ctx = ctx_env();
    setup_cb(&mut ctx, 0x40, 0x400, 0x800);
    let list = [(9u32, 90u32), (5, 50), (6, 60), (0x20, 1), (0x21, 2)];
    for (i, (offset, value)) in list.iter().enumerate() {
        assert!(write(&mut ctx, 0x1000 + 8 * i as u64, &offset.to_le_bytes()));
        assert!(write(&mut ctx, 0x1004 + 8 * i as u64, &value.to_le_bytes()));
    }
    assert_eq!(hle_cb_set_uc_registers_direct(&mut ctx, &[0x40, 0x1000, 5]), 0x400);
    // Three runs of five settings: two DWORDs for each packet, one for each value.
    let end = read_u64(&ctx, 0x40 + CB_CURSOR_UP);
    assert_eq!(end, 0x400 + 4 * (2 * 3 + 5));
    let mut set = vec![];
    let mut at = 0x400;
    while at < end {
        let n = hle_get_packet_size(&mut ctx, &[at]);
        let start = read_u32(&ctx, at + 4);
        for i in 0..n - 2 {
            set.push((start + i as u32, read_u32(&ctx, at + 8 + 4 * i)));
        }
        at += 4 * n;
    }
    assert_eq!(set, vec![(5, 50), (6, 60), (9, 90), (0x20, 1), (0x21, 2)]);
}
