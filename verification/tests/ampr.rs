//! Command buffers for asynchronous reads on concrete buffers and files.
use raeen_hle::context::{
    HleContext, OK, SCE_ERROR_INVALID_ARGUMENT, SCE_ERROR_MEMORY_FAULT, SCE_ERROR_NO_ENTRY,
    SCE_ERROR_PERMISSION_DENIED,
};
use raeen_hle::libsce_ampr::{
    HostError, ReadState, chunk_read, hle_apr_map_begin, hle_apr_map_end, hle_apr_read_file,
    hle_apr_read_file_gather, hle_apr_read_file_gather_scatter, hle_apr_read_file_scatter,
    hle_apr_reset_gather_scatter_state, hle_clear_buffer, hle_ctor, hle_dtor,
    hle_get_buffer_base_address, hle_get_current_offset, hle_get_num_commands, hle_get_size,
    hle_get_type_flags, hle_measure_map_begin, hle_measure_map_direct_begin, hle_nop,
    hle_nop_with_data, hle_reset, hle_set_buffer, hle_write_address_04_00,
    hle_write_address_from_source, hle_write_equeue_record, opened, APR_TYPE_GATHER_SCATTER_VALID,
    APR_TYPE_MAP_ACTIVE, CB_DATA_OFFSET, CB_SELF_OFFSET, CB_SIZE_OFFSET, READ_FILE_RECORD_SIZE,
    WRITE_ADDRESS_RECORD_SIZE,
};
use raeen_hle::mem::GuestMemory;
use raeen_hle::registry::{HleRegistry, Outcome};

/// A process with `size` bytes of memory from address zero on.
fn ctx_of(size: usize) -> HleContext {
    let mut mem = GuestMemory::empty();
    mem.map_region(0, size);
    HleContext::new(mem)
}

fn write(ctx: &mut HleContext, addr: u64, bytes: &[u8]) -> bool {
    ctx.mem.write(addr, 0, bytes)
}

fn read(ctx: &HleContext, addr: u64, out: &mut [u8]) -> bool {
    match ctx.mem.read(addr, 0, out.len()) {
        Some(bytes) => {
            out.copy_from_slice(&bytes);
            true
        }
        None => false,
    }
}

fn read_u64(ctx: &HleContext, addr: u64) -> u64 {
    let mut b = [0u8; 8];
    assert!(read(ctx, addr, &mut b));
    u64::from_le_bytes(b)
}

/// A process with the memory that most cases need.
fn ctx_env() -> HleContext {
    ctx_of(0x400)
}

/// The value that a call returned at once.
fn returned(outcome: Option<Outcome>) -> Option<u64> {
    match outcome {
        Some(Outcome::Return(value)) => Some(value),
        _ => None,
    }
}

const GTA5_MISSING_AMPR_NIDS: [&str; 46] = [
    "sceAmprAprCommandBufferReadFileGatherScatter",
    "sceAmprMeasureCommandSizeWaitOnCounter_04_00",
    "sceAmprCommandBufferWaitOnAddress_04_00",
    "sceAmprMeasureCommandSizeReadFileGatherScatter",
    "sceAmprAprCommandBufferMapBegin",
    "sceAmprCommandBufferConstructNop",
    "sceAmprMeasureCommandSizeWriteCounter_04_00",
    "sceAmprMeasureCommandSizeWriteAddressFromCounter_04_00",
    "sceAmprAprCommandBufferReadFileScatter",
    "sceAmprMeasureCommandSizeNop",
    "sceAmprCommandBufferGetBufferBaseAddress",
    "sceAmprCommandBufferGetType",
    "sceAmprMeasureCommandSizeSetMarker",
    "sceAmprMeasureCommandSizeNopWithData",
    "sceAmprAprCommandBufferMapEnd",
    "sceAmprAprCommandBufferResetGatherScatterState",
    "sceAmprAprCommandBufferMapDirectBegin",
    "sceAmprCommandBufferWriteAddressFromTimeCounter_04_00",
    "sceAmprCommandBufferWaitOnCounter_04_00",
    "sceAmprCommandBufferPushMarker",
    "sceAmprCommandBufferWriteAddressFromCounterPair_04_00",
    "sceAmprCommandBufferPushMarkerWithColor",
    "sceAmprMeasureCommandSizeWriteAddressFromTimeCounter_04_00",
    "sceAmprMeasureCommandSizeMapEnd",
    "sceAmprCommandBufferWriteCounter_04_00",
    "sceAmprCommandBufferWriteAddress_04_00",
    "sceAmprMeasureCommandSizeMapBegin",
    "sceAmprAprCommandBufferReadFileGather",
    "sceAmprCommandBufferPopMarker",
    "sceAmprCommandBufferNopWithData",
    "sceAmprMeasureCommandSizePopMarker",
    "sceAmprMeasureCommandSizeReadFileGather",
    "sceAmprMeasureCommandSizeMapDirectBegin",
    "sceAmprMeasureCommandSizeResetGatherScatterState",
    "sceAmprCommandBufferSetMarkerWithColor",
    "sceAmprCommandBufferNop",
    "sceAmprMeasureCommandSizeSetMarkerWithColor",
    "sceAmprCommandBufferWriteAddressFromCounter_04_00",
    "sceAmprMeasureCommandSizeWaitOnAddress_04_00",
    "sceAmprMeasureCommandSizePushMarker",
    "sceAmprMeasureCommandSizeWriteAddressFromCounterPair_04_00",
    "sceAmprMeasureCommandSizePushMarkerWithColor",
    "sceAmprCommandBufferConstructMarker",
    "sceAmprMeasureCommandSizeWriteAddress_04_00",
    "sceAmprCommandBufferSetMarker",
    "sceAmprMeasureCommandSizeReadFileScatter",
];

#[test]
fn num_commands_tracks_appends_and_resets() {
    let mut ctx = ctx_env();
    let cb: u64 = 0x100;
    assert_eq!(hle_get_num_commands(&mut ctx, &[0]), SCE_ERROR_INVALID_ARGUMENT);
    assert_eq!(hle_get_num_commands(&mut ctx, &[cb]), SCE_ERROR_MEMORY_FAULT);
    assert_eq!(hle_ctor(&mut ctx, &[cb, 0x200, 0x100]), cb);
    assert_eq!(hle_get_num_commands(&mut ctx, &[cb]), 0);
    assert_eq!(hle_write_equeue_record(&mut ctx, &[cb, 0x9000, 1, 2]), OK);
    assert_eq!(hle_write_equeue_record(&mut ctx, &[cb, 0x9000, 3, 4]), OK);
    assert_eq!(hle_get_num_commands(&mut ctx, &[cb]), 2);
    assert_eq!(hle_reset(&mut ctx, &[cb]), OK);
    assert_eq!(hle_get_num_commands(&mut ctx, &[cb]), 0);
    hle_dtor(&mut ctx, &[cb]);
    assert_eq!(hle_get_num_commands(&mut ctx, &[cb]), SCE_ERROR_MEMORY_FAULT);
}

#[test]
fn construct_get_set_reset_lifecycle() {
    let mut ctx = ctx_env();
    let cb: u64 = 0x100;
    assert_eq!(hle_ctor(&mut ctx, &[cb, 0x1000, 0x800]), cb);
    assert_eq!(read_u64(&ctx, cb + CB_SELF_OFFSET), cb);
    assert_eq!(read_u64(&ctx, cb + CB_DATA_OFFSET), 0x1000);
    assert_eq!(hle_get_size(&mut ctx, &[cb]), 0x800);
    assert_eq!(hle_get_current_offset(&mut ctx, &[cb]), 0);
    ctx.kernel.ampr_write_offsets.insert(cb, 0x40);
    assert_eq!(hle_get_current_offset(&mut ctx, &[cb]), 0x40);
    assert_eq!(hle_reset(&mut ctx, &[cb]), OK);
    assert_eq!(hle_get_current_offset(&mut ctx, &[cb]), 0);
    assert_eq!(hle_set_buffer(&mut ctx, &[cb, 0x2000, 0x400]), OK);
    assert_eq!(hle_get_size(&mut ctx, &[cb]), 0x400);
    assert_eq!(read_u64(&ctx, cb + CB_DATA_OFFSET), 0x2000);
    assert_eq!(hle_clear_buffer(&mut ctx, &[cb]), 0x2000);
    assert_eq!(read_u64(&ctx, cb + CB_DATA_OFFSET), 0);
    assert_eq!(read_u64(&ctx, cb + CB_SIZE_OFFSET), 0);
    assert_eq!(hle_dtor(&mut ctx, &[cb]), 0);
    assert!(!ctx.kernel.ampr_write_offsets.contains(cb));
    assert_eq!(hle_ctor(&mut ctx, &[0, 0, 0]), 0);
    assert_eq!(hle_get_size(&mut ctx, &[0]), SCE_ERROR_INVALID_ARGUMENT);
}

#[test]
fn measure_command_sizes_report_record_bytes() {
    let reg = HleRegistry::new();
    let mut ctx = ctx_of(0x10);
    assert_eq!(
        returned(reg.call(&mut ctx, "libSceAmpr", "sceAmprMeasureCommandSizeReadFile", &[])),
        Some(READ_FILE_RECORD_SIZE)
    );
    assert_eq!(
        returned(reg.call(&mut ctx, "libSceAmpr", "sceAmprMeasureCommandSizeWriteAddressOnCompletion", &[])),
        Some(WRITE_ADDRESS_RECORD_SIZE)
    );
}

#[test]
fn gta5_batch_all_46_missing_nids_resolve() {
    let registry = HleRegistry::new();
    for name in GTA5_MISSING_AMPR_NIDS {
        assert!(
            registry.is_implemented("libSceAmpr", name),
            "import must resolve: libSceAmpr::{name}"
        );
    }
}

#[test]
fn gta5_batch_degraded_semantics_are_tagged_incomplete() {
    let registry = HleRegistry::new();
    let incomplete: Vec<String> = registry
        .incomplete_registrations()
        .into_iter()
        .filter(|(library, _, _)| *library == "libSceAmpr")
        .map(|(_, function, _)| function.to_string())
        .collect();
    for name in [
        "sceAmprCommandBufferWaitOnAddress_04_00",
        "sceAmprCommandBufferWaitOnCounter_04_00",
        "sceAmprCommandBufferWriteCounter_04_00",
        "sceAmprCommandBufferWriteAddressFromCounter_04_00",
        "sceAmprCommandBufferWriteAddressFromCounterPair_04_00",
        "sceAmprCommandBufferWriteAddressFromTimeCounter_04_00",
        "sceAmprAprCommandBufferMapBegin",
        "sceAmprAprCommandBufferMapDirectBegin",
        "sceAmprAprCommandBufferMapEnd",
    ] {
        assert!(
            incomplete.iter().any(|f| f == name),
            "degraded-semantics entry must be register_incomplete: {name}"
        );
    }
}

#[test]
fn measure_sizes_match_writer_advances() {
    let registry = HleRegistry::new();
    let mut ctx = ctx_of(0x2000);
    let cb: u64 = 0x40;
    assert_eq!(hle_ctor(&mut ctx, &[cb, 0x200, 0x1000]), cb);

    let msg: u64 = 0x100;
    assert!(write(&mut ctx, msg, b"gta5\0"));

    let va: u64 = 0x4000;
    let sz: u64 = 0x4000;

    let cases: &[(&str, Vec<u64>, &str, Vec<u64>)] = &[
        (
            "sceAmprMeasureCommandSizeNop",
            vec![3],
            "sceAmprCommandBufferNop",
            vec![cb, 3],
        ),
        (
            "sceAmprMeasureCommandSizeNopWithData",
            vec![2, msg],
            "sceAmprCommandBufferNopWithData",
            vec![cb, 2, msg],
        ),
        (
            "sceAmprMeasureCommandSizeSetMarker",
            vec![msg],
            "sceAmprCommandBufferSetMarker",
            vec![cb, msg],
        ),
        (
            "sceAmprMeasureCommandSizeSetMarkerWithColor",
            vec![msg, 0xFF00FF],
            "sceAmprCommandBufferSetMarkerWithColor",
            vec![cb, msg, 0xFF00FF],
        ),
        (
            "sceAmprMeasureCommandSizePushMarker",
            vec![msg],
            "sceAmprCommandBufferPushMarker",
            vec![cb, msg],
        ),
        (
            "sceAmprMeasureCommandSizePushMarkerWithColor",
            vec![msg, 1],
            "sceAmprCommandBufferPushMarkerWithColor",
            vec![cb, msg, 1],
        ),
        (
            "sceAmprMeasureCommandSizePopMarker",
            vec![],
            "sceAmprCommandBufferPopMarker",
            vec![cb],
        ),
        (
            "sceAmprMeasureCommandSizeWriteAddress_04_00",
            vec![0x300, 7],
            "sceAmprCommandBufferWriteAddress_04_00",
            vec![cb, 0x300, 7, 0],
        ),
        (
            "sceAmprMeasureCommandSizeWriteAddressFromCounter_04_00",
            vec![0x300, 0],
            "sceAmprCommandBufferWriteAddressFromCounter_04_00",
            vec![cb, 0x300, 0, 0],
        ),
        (
            "sceAmprMeasureCommandSizeWriteAddressFromCounterPair_04_00",
            vec![0x300, 0],
            "sceAmprCommandBufferWriteAddressFromCounterPair_04_00",
            vec![cb, 0x300, 0, 0],
        ),
        (
            "sceAmprMeasureCommandSizeWriteAddressFromTimeCounter_04_00",
            vec![0x300],
            "sceAmprCommandBufferWriteAddressFromTimeCounter_04_00",
            vec![cb, 0x300, 0],
        ),
        (
            "sceAmprMeasureCommandSizeWaitOnAddress_04_00",
            vec![0x300, 1, 0, 0],
            "sceAmprCommandBufferWaitOnAddress_04_00",
            vec![cb, 0x300, 1, 0, 0],
        ),
        (
            "sceAmprMeasureCommandSizeWaitOnCounter_04_00",
            vec![],
            "sceAmprCommandBufferWaitOnCounter_04_00",
            vec![cb, 0, 0, 0, 0, 0, 0, 0],
        ),
        (
            "sceAmprMeasureCommandSizeWriteCounter_04_00",
            vec![],
            "sceAmprCommandBufferWriteCounter_04_00",
            vec![cb, 0, 0, 0, 0, 0],
        ),
        (
            "sceAmprMeasureCommandSizeResetGatherScatterState",
            vec![],
            "sceAmprAprCommandBufferResetGatherScatterState",
            vec![cb, 0, 0],
        ),
        (
            "sceAmprMeasureCommandSizeMapBegin",
            vec![va, sz, 0, 0],
            "sceAmprAprCommandBufferMapBegin",
            vec![cb, va, sz, 0, 0],
        ),
        (
            "sceAmprMeasureCommandSizeMapDirectBegin",
            vec![va, 0, sz, 0, 0],
            "sceAmprAprCommandBufferMapDirectBegin",
            vec![cb, va, 0, sz, 0, 0],
        ),
        (
            "sceAmprMeasureCommandSizeMapEnd",
            vec![],
            "sceAmprAprCommandBufferMapEnd",
            vec![cb],
        ),
    ];
    for (measure, margs, writer, wargs) in cases {
        let measured = returned(registry.call(&mut ctx, "libSceAmpr", measure, margs))
            .unwrap_or_else(|| panic!("{measure} must resolve"));
        assert!(
            measured < 0x8000_0000,
            "{measure} returned an error for valid args: {measured:#x}"
        );
        let before = hle_get_current_offset(&mut ctx, &[cb]);
        let ret = returned(registry.call(&mut ctx, "libSceAmpr", writer, wargs))
            .unwrap_or_else(|| panic!("{writer} must resolve"));
        assert_eq!(ret, OK, "{writer} must append for valid args");
        let after = hle_get_current_offset(&mut ctx, &[cb]);
        assert_eq!(
            after - before,
            measured,
            "{measure} ({measured:#x}) must equal {writer}'s cursor advance"
        );
    }
}

#[test]
fn map_window_requires_begin_before_end() {
    let mut ctx = ctx_env();
    let cb: u64 = 0x40;
    assert_eq!(hle_ctor(&mut ctx, &[cb, 0x200, 0x200]), cb);

    assert_eq!(hle_apr_map_end(&mut ctx, &[cb]), SCE_ERROR_PERMISSION_DENIED);
    assert_eq!(
        hle_apr_map_begin(&mut ctx, &[cb, 0x123, 0x4000, 0, 0]),
        SCE_ERROR_INVALID_ARGUMENT
    );
    assert_eq!(
        hle_measure_map_begin(&[0x123, 0x4000, 0, 0]),
        SCE_ERROR_INVALID_ARGUMENT
    );
    assert_eq!(
        hle_measure_map_direct_begin(&[0x4000, 0x123, 0x4000, 0, 0]),
        SCE_ERROR_INVALID_ARGUMENT
    );

    assert_eq!(hle_apr_map_begin(&mut ctx, &[cb, 0x4000, 0x8000, 0, 0]), OK);
    assert_eq!(
        hle_get_type_flags(&mut ctx, &[cb]) as u32 & APR_TYPE_MAP_ACTIVE,
        APR_TYPE_MAP_ACTIVE
    );
    assert_eq!(hle_apr_map_end(&mut ctx, &[cb]), OK);
    assert_eq!(
        hle_get_type_flags(&mut ctx, &[cb]) as u32 & APR_TYPE_MAP_ACTIVE,
        0
    );
    assert_eq!(hle_apr_map_end(&mut ctx, &[cb]), SCE_ERROR_PERMISSION_DENIED);
}

#[test]
fn get_type_and_buffer_base_address_basics() {
    let mut ctx = ctx_env();
    let cb: u64 = 0x40;
    assert_eq!(hle_get_buffer_base_address(&mut ctx, &[0]), 0);
    assert_eq!(hle_get_type_flags(&mut ctx, &[0]), 0);
    assert_eq!(hle_ctor(&mut ctx, &[cb, 0x200, 0x100]), cb);
    assert_eq!(hle_get_buffer_base_address(&mut ctx, &[cb]), 0x200);
    assert_eq!(hle_get_type_flags(&mut ctx, &[cb]), 0);
    assert_eq!(hle_apr_map_begin(&mut ctx, &[cb, 0x4000, 0x4000, 0, 0]), OK);
    assert_ne!(hle_get_type_flags(&mut ctx, &[cb]), 0);
    assert_eq!(hle_ctor(&mut ctx, &[cb, 0x200, 0x100]), cb);
    assert_eq!(hle_get_type_flags(&mut ctx, &[cb]), 0);
}

#[test]
fn nop_writers_enforce_dword_bounds() {
    let mut ctx = ctx_env();
    let cb: u64 = 0x40;
    assert_eq!(hle_ctor(&mut ctx, &[cb, 0x200, 0x200]), cb);
    assert_eq!(hle_nop(&mut ctx, &[cb, 0]), SCE_ERROR_INVALID_ARGUMENT);
    assert_eq!(hle_nop(&mut ctx, &[cb, 17]), SCE_ERROR_INVALID_ARGUMENT);
    assert_eq!(
        hle_nop_with_data(&mut ctx, &[cb, 16, 0]),
        SCE_ERROR_INVALID_ARGUMENT
    );
    assert_eq!(hle_nop(&mut ctx, &[0, 1]), SCE_ERROR_INVALID_ARGUMENT);
    assert_eq!(hle_nop(&mut ctx, &[cb, 16]), OK);
    assert_eq!(hle_nop_with_data(&mut ctx, &[cb, 15, 0]), OK);
    assert_eq!(hle_get_num_commands(&mut ctx, &[cb]), 2);
}

/// A host file that answers reads, with short reads of at most `step` bytes.
fn run_read(ctx: &mut HleContext, data: &[u8], step: usize, start: ReadState) -> u64 {
    let mut state = start;
    loop {
        state = match state {
            ReadState::Done { code } => return code,
            ReadState::Open { .. } => opened(ctx, state, Ok(data.len() as u64)),
            ReadState::Chunk { offset, want, .. } => {
                let from = (offset as usize).min(data.len());
                let n = (want as usize).min(step).min(data.len() - from);
                chunk_read(ctx, state, Ok(data[from..from + n].to_vec()))
            }
        };
    }
}

fn read_file(ctx: &mut HleContext, data: &[u8], args: &[u64]) -> u64 {
    let start = hle_apr_read_file(ctx, args);
    run_read(ctx, data, usize::MAX, start)
}

/// Make a file known under an id.
fn register_file(ctx: &mut HleContext, id: u32) -> u32 {
    ctx.kernel.appr_files.insert(u64::from(id), 0);
    id
}

#[test]
fn apr_read_file_populates_guest_memory_at_append_not_submit() {
    let mut ctx = ctx_env();
    let data: Vec<u8> = (0..256u32).map(|i| (i * 7 % 251) as u8).collect();
    let id = register_file(&mut ctx, 1);

    let cb: u64 = 0x40;
    let buf: u64 = 0x100;
    let dst: u64 = 0x300;
    assert_eq!(hle_ctor(&mut ctx, &[cb, buf, 0x100]), cb);
    assert_eq!(read_file(&mut ctx, &data, &[cb, 0, 0, u64::from(id), dst, 256, 0]), OK);
    let mut guest = vec![0u8; 256];
    assert!(read(&ctx, dst, &mut guest));
    assert_eq!(guest, data, "the read must be eager at record-append time");
    assert_eq!(read_u64(&ctx, buf + 0x20), 256);
}

#[test]
fn apr_read_file_exact_read_fills_full_destination() {
    let mut ctx = ctx_of(0x40000);
    let n = 100_000usize;
    let data: Vec<u8> = (0..n as u32).map(|i| (i * 31 % 256) as u8).collect();
    let id = register_file(&mut ctx, 1);

    let cb: u64 = 0x100;
    let buf: u64 = 0x1000;
    let dst: u64 = 0x10000;
    assert_eq!(hle_ctor(&mut ctx, &[cb, buf, 0x1000]), cb);
    let start = hle_apr_read_file(&mut ctx, &[cb, 0, 0, u64::from(id), dst, n as u64, 0]);
    assert_eq!(run_read(&mut ctx, &data, 0x1000, start), OK);
    let mut guest = vec![0u8; n];
    assert!(read(&ctx, dst, &mut guest));
    assert_eq!(guest, data, "all {n} bytes must land (read-exact loop)");
    assert_eq!(read_u64(&ctx, buf + 0x20), n as u64);

    assert_eq!(
        read_file(
            &mut ctx,
            &data,
            &[cb, 0, 0, u64::from(id), dst, 0x2000, (n - 0x1000) as u64]
        ),
        OK
    );
    assert_eq!(read_u64(&ctx, buf + 0x30 + 0x20), 0x1000);
}

#[test]
fn apr_read_file_missing_file_logs_and_matches_sharpemu_semantics() {
    let mut ctx = ctx_env();
    let cb: u64 = 0x100;
    let dst: u64 = 0x200;
    assert_eq!(hle_ctor(&mut ctx, &[cb, 0x300, 0x100]), cb);
    assert!(write(&mut ctx, dst, &[0xEEu8; 16]));
    assert_eq!(read_file(&mut ctx, &[], &[cb, 0, 0, 7, dst, 16, 0]), SCE_ERROR_NO_ENTRY);
    let mut probe = [0u8; 16];
    assert!(read(&ctx, dst, &mut probe));
    assert_eq!(probe, [0xEEu8; 16], "a missing file must not zero-fill");
    assert_eq!(hle_get_current_offset(&mut ctx, &[cb]), 0);
    assert!(ctx.kernel.appr_missing_warned.contains(7));
    assert_eq!(read_file(&mut ctx, &[], &[cb, 0, 0, 7, dst, 16, 0]), SCE_ERROR_NO_ENTRY);
    assert_eq!(ctx.kernel.appr_missing_warned.len(), 1);
    assert_eq!(
        read_file(&mut ctx, &[], &[0, 0, 0, 7, dst, 16, 0]),
        SCE_ERROR_INVALID_ARGUMENT
    );
    assert_eq!(read_file(&mut ctx, &[], &[cb, 0, 0, 7, 0, 16, 0]), SCE_ERROR_INVALID_ARGUMENT);
    assert_eq!(read_file(&mut ctx, &[], &[cb, 0, 0, 7, 0, 0, 0]), SCE_ERROR_NO_ENTRY);
}

#[test]
fn host_failures_become_guest_errors() {
    let mut ctx = ctx_env();
    let id = register_file(&mut ctx, 1);
    let cb: u64 = 0x40;
    assert_eq!(hle_ctor(&mut ctx, &[cb, 0x100, 0x100]), cb);
    let args = [cb, 0, 0, u64::from(id), 0x300, 16, 0];
    let state = hle_apr_read_file(&mut ctx, &args);
    match opened(&mut ctx, state, Err(HostError::PermissionDenied)) {
        ReadState::Done { code } => assert_eq!(code, SCE_ERROR_PERMISSION_DENIED),
        _ => panic!("an unopened file cannot be read"),
    }
    let state = hle_apr_read_file(&mut ctx, &args);
    let state = opened(&mut ctx, state, Ok(16));
    match chunk_read(&mut ctx, state, Err(HostError::Other)) {
        ReadState::Done { code } => assert_eq!(code, SCE_ERROR_NO_ENTRY),
        _ => panic!("a failed read does not go on"),
    }
    assert_eq!(hle_get_current_offset(&mut ctx, &[cb]), 0);
    // A destination that is not mapped is a fault.
    assert_eq!(
        read_file(&mut ctx, &[1; 16], &[cb, 0, 0, u64::from(id), 0x3F8, 16, 0]),
        SCE_ERROR_MEMORY_FAULT
    );
}

#[test]
fn gather_scatter_reads_continue_the_stream() {
    let mut ctx = ctx_of(0x4000);
    let data: Vec<u8> = (0..128u32).map(|i| i as u8).collect();
    let id = register_file(&mut ctx, 1);

    let cb: u64 = 0x40;
    let dst1: u64 = 0x1000;
    let dst2: u64 = 0x2000;
    assert_eq!(hle_ctor(&mut ctx, &[cb, 0x400, 0x400]), cb);

    let state = hle_apr_read_file_gather(&mut ctx, &[cb, 0, 0, 8, 0]);
    assert_eq!(run_read(&mut ctx, &data, 64, state), SCE_ERROR_INVALID_ARGUMENT);

    assert_eq!(read_file(&mut ctx, &data, &[cb, 0, 0, u64::from(id), dst1, 16, 0]), OK);
    assert_eq!(
        hle_get_type_flags(&mut ctx, &[cb]) as u32 & APR_TYPE_GATHER_SCATTER_VALID,
        APR_TYPE_GATHER_SCATTER_VALID
    );

    let state = hle_apr_read_file_scatter(&mut ctx, &[cb, 0, 0, dst2, 16]);
    assert_eq!(run_read(&mut ctx, &data, 64, state), OK);
    let mut got = [0u8; 16];
    assert!(read(&ctx, dst2, &mut got));
    assert_eq!(got, data[16..32], "scatter continues the file sequentially");

    let state = hle_apr_read_file_gather(&mut ctx, &[cb, 0, 0, 8, 64]);
    assert_eq!(run_read(&mut ctx, &data, 64, state), OK);
    let mut got8 = [0u8; 8];
    assert!(read(&ctx, dst2 + 16, &mut got8));
    assert_eq!(got8, data[64..72], "gather lands at the continued destination");

    let state = hle_apr_read_file_gather_scatter(&mut ctx, &[cb, 0, 0, dst1 + 0x100, 8, 96]);
    assert_eq!(run_read(&mut ctx, &data, 64, state), OK);
    assert!(read(&ctx, dst1 + 0x100, &mut got8));
    assert_eq!(got8, data[96..104]);

    assert_eq!(hle_apr_reset_gather_scatter_state(&mut ctx, &[cb, 0, 0]), OK);
    assert_eq!(
        hle_get_type_flags(&mut ctx, &[cb]) as u32 & APR_TYPE_GATHER_SCATTER_VALID,
        0
    );
    let state = hle_apr_read_file_scatter(&mut ctx, &[cb, 0, 0, dst2, 8]);
    assert_eq!(run_read(&mut ctx, &data, 64, state), SCE_ERROR_INVALID_ARGUMENT);
}

#[test]
fn completion_records_say_what_to_write() {
    let mut ctx = ctx_env();
    let cb: u64 = 0x40;
    assert_eq!(hle_ctor(&mut ctx, &[cb, 0x200, 0x100]), cb);
    assert_eq!(hle_write_address_04_00(&mut ctx, &[cb, 0x300, 0x1234, 0]), OK);
    assert_eq!(hle_write_address_from_source(&mut ctx, &[cb, 0x310, 0]), OK);
    // Both records name their address and their value.
    let first: Vec<u64> = (0..4).map(|i| read_u64(&ctx, 0x200 + i * 8)).collect();
    let second: Vec<u64> = (0..4).map(|i| read_u64(&ctx, 0x220 + i * 8)).collect();
    assert!(first.contains(&0x300) && first.contains(&0x1234));
    assert!(second.contains(&0x310) && !second.contains(&0x1234));
    assert_eq!(hle_get_num_commands(&mut ctx, &[cb]), 2);
}

#[test]
fn a_record_that_does_not_fit_is_refused() {
    let mut ctx = ctx_env();
    let cb: u64 = 0x40;
    assert_eq!(hle_ctor(&mut ctx, &[cb, 0x200, 0x10]), cb);
    assert_ne!(hle_write_equeue_record(&mut ctx, &[cb, 0x9000, 1, 2]), OK);
    assert_eq!(hle_get_current_offset(&mut ctx, &[cb]), 0);
    assert_eq!(hle_get_num_commands(&mut ctx, &[cb]), 0);
}

#[test]
fn records_stand_end_to_end() {
    let mut ctx = ctx_env();
    assert_eq!(hle_ctor(&mut ctx, &[0x40, 0x100, 0x100]), 0x40);
    assert_eq!(hle_write_address_04_00(&mut ctx, &[0x40, 0x300, 5]), OK);
    assert_eq!(hle_nop(&mut ctx, &[0x40, 1]), OK);
    assert_eq!(hle_write_address_from_source(&mut ctx, &[0x40, 0x308]), OK);
    // Type and address of each, at the offsets that the earlier ones left.
    assert_eq!(read_u64(&ctx, 0x100), 3);
    assert_eq!(read_u64(&ctx, 0x108), 0x300);
    assert_eq!(read_u64(&ctx, 0x110), 5);
    assert_eq!(read_u64(&ctx, 0x120), 4 | (12 << 32));
    assert_eq!(read_u64(&ctx, 0x12C), 3);
    assert_eq!(read_u64(&ctx, 0x134), 0x308);
    assert_eq!(hle_get_current_offset(&mut ctx, &[0x40]), 0x4C);
    assert_eq!(hle_get_num_commands(&mut ctx, &[0x40]), 3);
}

#[test]
fn reads_are_exact_however_the_host_cuts_them() {
    let data: Vec<u8> = (0..100).collect();
    for step in [1usize, 7, 64, 100] {
        let mut ctx = ctx_env();
        let id = register_file(&mut ctx, 9);
        assert_eq!(hle_ctor(&mut ctx, &[0x40, 0x300, 0x100]), 0x40);
        // More is asked for than the file holds behind the offset.
        let start =
            hle_apr_read_file(&mut ctx, &[0x40, 0, 0, u64::from(id), 0x100, 0x80, 30]);
        assert_eq!(run_read(&mut ctx, &data, step, start), OK);
        let mut out = [0u8; 71];
        assert!(read(&ctx, 0x100, &mut out));
        assert_eq!(&out[..70], &data[30..]);
        assert_eq!(out[70], 0);
        // The record says how much came.
        assert_eq!(read_u64(&ctx, 0x300 + 0x20), 70);
    }
}

#[test]
fn the_map_window_follows_the_calls() {
    let mut ctx = ctx_env();
    let (cb, other): (u64, u64) = (0x40, 0x80);
    assert_eq!(hle_ctor(&mut ctx, &[cb, 0x200, 0x80]), cb);
    assert_eq!(hle_ctor(&mut ctx, &[other, 0x300, 0x80]), other);
    assert_eq!(hle_apr_map_end(&mut ctx, &[0]), SCE_ERROR_PERMISSION_DENIED);
    // A window of one buffer is not a window of another.
    assert_eq!(hle_apr_map_begin(&mut ctx, &[cb, 0x4000, 0x8000, 0, 0]), OK);
    assert_eq!(hle_apr_map_end(&mut ctx, &[other]), SCE_ERROR_PERMISSION_DENIED);
    // A reset leaves it open, and so do records.
    assert_eq!(hle_reset(&mut ctx, &[cb]), OK);
    assert_eq!(hle_nop(&mut ctx, &[cb, 1]), OK);
    assert_eq!(hle_apr_reset_gather_scatter_state(&mut ctx, &[cb]), OK);
    assert_eq!(hle_apr_map_end(&mut ctx, &[cb]), OK);
    assert_eq!(hle_apr_map_end(&mut ctx, &[cb]), SCE_ERROR_PERMISSION_DENIED);
    // Destruction and construction close it.
    assert_eq!(hle_apr_map_begin(&mut ctx, &[cb, 0x4000, 0x8000, 0, 0]), OK);
    assert_eq!(hle_dtor(&mut ctx, &[cb]), 0);
    assert_eq!(hle_apr_map_end(&mut ctx, &[cb]), SCE_ERROR_PERMISSION_DENIED);
    assert_eq!(hle_apr_map_begin(&mut ctx, &[other, 0x4000, 0x8000, 0, 0]), OK);
    assert_eq!(hle_ctor(&mut ctx, &[other, 0x300, 0x80]), other);
    assert_eq!(hle_apr_map_end(&mut ctx, &[other]), SCE_ERROR_PERMISSION_DENIED);
}

#[test]
fn measures_by_name_match_the_cursor() {
    let registry = HleRegistry::new();
    let mut ctx = ctx_of(0x800);
    let cb: u64 = 0x40;
    assert_eq!(hle_ctor(&mut ctx, &[cb, 0x200, 0x400]), cb);
    assert!(write(&mut ctx, 0x100, b"frame\0"));
    for (writer, args, measure, asked) in [
        ("sceAmprCommandBufferNop", vec![cb, 3], "sceAmprMeasureCommandSizeNop", vec![3]),
        (
            "sceAmprCommandBufferPushMarker",
            vec![cb, 0x100],
            "sceAmprMeasureCommandSizePushMarker",
            vec![0x100],
        ),
        (
            "sceAmprCommandBufferPopMarker",
            vec![cb],
            "sceAmprMeasureCommandSizePopMarker",
            vec![],
        ),
        (
            "sceAmprAprCommandBufferMapBegin",
            vec![cb, 0x4000, 0x8000, 0, 0],
            "sceAmprMeasureCommandSizeMapBegin",
            vec![0x4000, 0x8000, 0, 0],
        ),
        (
            "sceAmprAprCommandBufferMapEnd",
            vec![cb],
            "sceAmprMeasureCommandSizeMapEnd",
            vec![],
        ),
    ] {
        let before = hle_get_current_offset(&mut ctx, &[cb]);
        let size = returned(registry.call(&mut ctx, "libSceAmpr", measure, &asked));
        assert_eq!(
            returned(registry.call(&mut ctx, "libSceAmpr", writer, &args)),
            Some(OK),
            "{writer}"
        );
        let after = hle_get_current_offset(&mut ctx, &[cb]);
        assert_eq!(size, Some(after - before), "{measure}");
    }
}

#[test]
fn incomplete_commands_say_what_is_missing() {
    let registry = HleRegistry::new();
    let reasons = registry.incomplete_registrations();
    assert!(reasons.contains(&(
        "libSceAmpr",
        "sceAmprAprCommandBufferMapEnd",
        "closes the window flag only; no mapping was performed (KytyPS5 parity)",
    )));
    assert!(reasons.contains(&(
        "libSceAmpr",
        "sceAmprCommandBufferWriteCounter_04_00",
        "AMPR counters unmodeled: the counter write is dropped (KytyPS5 parity)",
    )));
}
