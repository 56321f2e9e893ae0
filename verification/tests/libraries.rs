//! The small libraries on concrete calls.
use raeen_hle::libsce_content_export as content_export;
use raeen_hle::libsce_http as http;
use raeen_hle::libsce_ime_dialog as ime_dialog;
use raeen_hle::context::{HleContext, OK};
use raeen_hle::libsce_audio_propagation::hle_system_query_memory;
use raeen_hle::libsce_content_export::{
    hle_init2, ERROR_INVALDPARAM, ERROR_MULTIPLEINIT, ERROR_NOINIT,
};
use raeen_hle::libsce_coredump::{hle_register_handler, hle_unregister_handler};
use raeen_hle::libsce_dialog_misc::{
    hle_error_close, hle_error_initialize, hle_error_open, hle_error_status, hle_vr_close,
    hle_vr_get_result, hle_vr_initialize, hle_vr_open, hle_vr_status, reported_error,
    STATUS_FINISHED, STATUS_INITIALIZED, STATUS_NONE,
};
use raeen_hle::libsce_fiber::{
    hle_fiber_finalize, hle_fiber_initialize, hle_opt_param_init, hle_start_context_size_check,
    hle_stop_context_size_check, FIBER_ERROR_ALIGNMENT, FIBER_ERROR_INVALID, FIBER_ERROR_NULL,
    FIBER_ERROR_STATE, FIBER_OPT_SIGNATURE,
};
use raeen_hle::libsce_http::{
    hle_http2_create_request_with_url, hle_http2_create_template, hle_http2_init, hle_http2_term,
    hle_http_create_template, hle_http_delete_template, hle_http_init, hle_http_term,
    hle_http_uri_escape, HTTP2_ERROR_CANNOT_CONNECT, HTTP2_ERROR_INVALID_ARGUMENT,
    HTTP2_ERROR_INVALID_ID, HTTP_ERROR_INVALID_ID, HTTP_ERROR_INVALID_VALUE,
    HTTP_ERROR_OUT_OF_SIZE,
};
use raeen_hle::libsce_ime_dialog::{
    hle_abort, hle_get_panel_size_extended, hle_get_result, hle_get_status, END_STATUS_ABORTED,
    END_STATUS_USER_CANCELED, IME_ERROR_INVALID_ADDRESS, PANEL_HEIGHT, PANEL_WIDTH,
};
use raeen_hle::mem::GuestMemory;
use raeen_hle::registry::{HleRegistry, Outcome};

/// A process with `size` bytes of memory from address zero on.
fn ctx_of(size: usize) -> HleContext {
    let mut mem = GuestMemory::empty();
    mem.map_region(0, size);
    HleContext::new(mem)
}

fn write(ctx: &mut HleContext, addr: u64, bytes: &[u8]) -> bool {
    ctx.mem.write(addr, 0, bytes)
}

fn read(ctx: &HleContext, addr: u64, out: &mut [u8]) -> bool {
    match ctx.mem.read(addr, 0, out.len()) {
        Some(bytes) => {
            out.copy_from_slice(&bytes);
            true
        }
        None => false,
    }
}

fn read_u32(ctx: &HleContext, addr: u64) -> u32 {
    let mut b = [0u8; 4];
    assert!(read(ctx, addr, &mut b));
    u32::from_le_bytes(b)
}

fn read_u64(ctx: &HleContext, addr: u64) -> u64 {
    let mut b = [0u8; 8];
    assert!(read(ctx, addr, &mut b));
    u64::from_le_bytes(b)
}

#[test]
fn query_memory_reports_a_modern_aligned_working_set() {
    let mut ctx = ctx_of(0x100);
    assert_eq!(hle_system_query_memory(&mut ctx, &[0, 0x20]), OK);
    let mut b = [0u8; 16];
    assert!(read(&ctx, 0x20, &mut b));
    assert_eq!(u64::from_le_bytes(b[0..8].try_into().unwrap()), 0x10_0000);
    assert_eq!(u64::from_le_bytes(b[8..16].try_into().unwrap()), 0x100);
    assert_eq!(hle_system_query_memory(&mut ctx, &[0, 0]), OK);
}

#[test]
fn full_measured_surface_is_registered() {
    let registry = HleRegistry::new();
    for name in [
        "sceAudioPropagationSystemQueryMemory",
        "sceAudioPropagationSystemCreate",
        "sceAudioPropagationSystemDestroy",
        "sceAudioPropagationSystemSetAttributes",
        "sceAudioPropagationSystemSetRays",
        "sceAudioPropagationSystemGetRays",
        "sceAudioPropagationSystemRegisterMaterial",
        "sceAudioPropagationSystemUnregisterMaterial",
        "sceAudioPropagationRoomCreate",
        "sceAudioPropagationRoomDestroy",
        "sceAudioPropagationPortalCreate",
        "sceAudioPropagationPortalDestroy",
        "sceAudioPropagationPortalSetAttributes",
        "sceAudioPropagationSourceCreate",
        "sceAudioPropagationSourceDestroy",
        "sceAudioPropagationSourceSetAttributes",
        "sceAudioPropagationSourceCalculateAudioPaths",
        "sceAudioPropagationSourceGetAudioPath",
        "sceAudioPropagationSourceGetAudioPathCount",
        "sceAudioPropagationSourceGetRays",
        "sceAudioPropagationSourceRender",
        "sceAudioPropagationSourceSetAudioPaths",
    ] {
        assert!(
            registry.is_implemented("libSceAudioPropagation", name),
            "{name} must be registered"
        );
    }
}

#[test]
fn init2_validates_and_returns_ok_then_multipleinit() {
    let mut ctx = ctx_of(0x1000);

    let param = 0x200u64;
    assert_eq!(hle_init2(&mut ctx, &[param]), ERROR_INVALDPARAM);
    assert!(write(&mut ctx, param, &0x1234u64.to_le_bytes()));
    assert!(write(&mut ctx, param + 0x08, &0x5678u64.to_le_bytes()));
    assert_eq!(hle_init2(&mut ctx, &[param]), OK);
    assert_eq!(hle_init2(&mut ctx, &[param]), ERROR_MULTIPLEINIT);
    assert_eq!(content_export::hle_term(&mut ctx, &[]), OK);
    assert_eq!(hle_init2(&mut ctx, &[param]), OK);
}

#[test]
fn register_handler_records_pointers() {
    let mut ctx = ctx_of(0x10);

    assert_eq!(hle_register_handler(&mut ctx, &[0xCAFE, 0xF00D]), OK);
    assert_eq!(ctx.kernel.small.coredump_handler, 0xCAFE);
    assert_eq!(
        ctx.kernel.small.coredump_handler_context,
        0xF00D
    );
}

#[test]
fn error_dialog_completes_immediately_and_returns_to_none() {
    let mut ctx = ctx_of(0x100);
    assert_eq!(hle_error_status(&ctx), STATUS_NONE as u64);
    assert_eq!(hle_error_initialize(&mut ctx, &[]), OK);
    assert_eq!(hle_error_status(&ctx), STATUS_INITIALIZED as u64);
    assert_eq!(hle_error_open(&mut ctx, &[0]), OK);
    assert_eq!(hle_error_status(&ctx), STATUS_FINISHED as u64);
    assert_eq!(hle_error_close(&mut ctx, &[]), OK);
    assert_eq!(hle_error_status(&ctx), STATUS_NONE as u64);
}

#[test]
fn vr_setup_dialog_completes_immediately_without_a_device() {
    let mut ctx = ctx_of(0x100);
    assert_eq!(hle_vr_initialize(&mut ctx, &[]), OK);
    assert_eq!(hle_vr_status(&ctx), STATUS_INITIALIZED as u64);
    assert_eq!(hle_vr_open(&mut ctx, &[0]), OK);
    assert_eq!(hle_vr_status(&ctx), STATUS_FINISHED as u64);
    assert_eq!(hle_vr_get_result(), OK);
    assert_eq!(hle_vr_close(&mut ctx, &[]), OK);
    assert_eq!(hle_vr_status(&ctx), STATUS_NONE as u64);
}

#[test]
fn every_measured_import_of_both_libraries_is_registered() {
    let registry = HleRegistry::new();
    for name in [
        "sceErrorDialogInitialize",
        "sceErrorDialogOpen",
        "sceErrorDialogUpdateStatus",
        "sceErrorDialogTerminate",
    ] {
        assert!(
            registry.is_implemented("libSceErrorDialog", name),
            "libSceErrorDialog::{name} is imported by the measured title"
        );
    }
    for name in [
        "sceVrSetupDialogInitialize",
        "sceVrSetupDialogOpen",
        "sceVrSetupDialogUpdateStatus",
        "sceVrSetupDialogGetResult",
        "sceVrSetupDialogClose",
        "sceVrSetupDialogTerminate",
    ] {
        assert!(
            registry.is_implemented("libSceVrSetupDialog", name),
            "libSceVrSetupDialog::{name} is imported by the measured title"
        );
    }
}

#[test]
fn opt_param_init_stamps_signature_and_validates() {
    let mut ctx = ctx_of(0x40);
    assert_eq!(hle_opt_param_init(&mut ctx, &[0]), FIBER_ERROR_NULL);
    assert_eq!(hle_opt_param_init(&mut ctx, &[0x14]), FIBER_ERROR_ALIGNMENT);
    assert_eq!(hle_opt_param_init(&mut ctx, &[0x10]), OK);
    let mut b = [0u8; 4];
    assert!(read(&ctx, 0x10, &mut b));
    assert_eq!(u32::from_le_bytes(b), FIBER_OPT_SIGNATURE);
}

#[test]
fn context_size_check_toggles_with_state_errors() {
    let mut ctx = ctx_of(0x40);
    assert_eq!(
        hle_start_context_size_check(&mut ctx, &[1]),
        FIBER_ERROR_INVALID
    );
    assert_eq!(hle_start_context_size_check(&mut ctx, &[0]), OK);
    assert_eq!(hle_start_context_size_check(&mut ctx, &[0]), FIBER_ERROR_STATE);
    assert_eq!(hle_stop_context_size_check(&mut ctx, &[]), OK);
    assert_eq!(hle_stop_context_size_check(&mut ctx, &[]), FIBER_ERROR_STATE);
}

#[test]
fn initialize_stamps_the_context_guard_only_within_the_declared_size() {
    let mut ctx = ctx_of(0x200);
    const GUARD: u64 = 0x7149_f2ca_7149_f2ca;
    assert!(write(&mut ctx, 0x120, &[0xEEu8; 8]));
    assert_eq!(
        hle_fiber_initialize(&mut ctx, &[0x80, 0, 0x1000, 0, 0x120, 4]),
        OK
    );
    let mut seen = [0u8; 8];
    assert!(read(&ctx, 0x120, &mut seen));
    assert_eq!(seen, [0xEE; 8], "no stamp fits in a 4-byte context");
    assert_eq!(
        hle_fiber_initialize(&mut ctx, &[0x80, 0, 0x1000, 0, 0x120, 0x100]),
        OK
    );
    assert!(read(&ctx, 0x120, &mut seen));
    assert_eq!(u64::from_le_bytes(seen), GUARD);
}

#[test]
fn http_uri_escape_percent_encodes() {
    
    let mut ctx = ctx_of(0x1000);

    assert!(write(&mut ctx, 0x100, b"a b/c~\0"));
    assert_eq!(hle_http_uri_escape(&mut ctx, &[0, 0x200, 0, 0x100]), OK);
    let mut req = [0u8; 8];
    assert!(read(&ctx, 0x200, &mut req));
    assert_eq!(u64::from_le_bytes(req), 11);

    assert_eq!(
        hle_http_uri_escape(&mut ctx, &[0x300, 0, 10, 0x100]),
        HTTP_ERROR_OUT_OF_SIZE
    );
    assert_eq!(hle_http_uri_escape(&mut ctx, &[0x300, 0, 11, 0x100]), OK);
    let mut out = [0u8; 11];
    assert!(read(&ctx, 0x300, &mut out));
    assert_eq!(&out, b"a%20b%2Fc~\0");

    assert_eq!(
        hle_http_uri_escape(&mut ctx, &[0x300, 0, 11, 0]),
        HTTP_ERROR_INVALID_VALUE
    );
}

#[test]
fn http_context_and_template_lifecycle() {
    let mut ctx = ctx_of(0x10);

    assert_eq!(hle_http_init(&mut ctx, &[0, 0, 0]), HTTP_ERROR_INVALID_VALUE);
    assert_eq!(hle_http_init(&mut ctx, &[0, 0, 0x1000]), 1);
    assert_eq!(hle_http_init(&mut ctx, &[0, 0, 0x1000]), 2);

    assert_eq!(
        hle_http_create_template(&mut ctx, &[99, 0, 1, 0]),
        HTTP_ERROR_INVALID_ID
    );
    assert_eq!(hle_http_create_template(&mut ctx, &[1, 0, 1, 0]), 0x1001);
    assert_eq!(hle_http_create_template(&mut ctx, &[1, 0, 1, 0]), 0x1002);

    assert_eq!(hle_http_delete_template(&mut ctx, &[0x1001]), OK);
    assert_eq!(
        hle_http_delete_template(&mut ctx, &[0x1001]),
        HTTP_ERROR_INVALID_ID
    );

    assert!(ctx.kernel.http_templates.contains(0x1002));
    assert_eq!(hle_http_term(&mut ctx, &[1]), OK);
    assert!(!ctx.kernel.http_templates.contains(0x1002));
    assert_eq!(hle_http_term(&mut ctx, &[1]), HTTP_ERROR_INVALID_ID);
    assert!(ctx.kernel.http_contexts.contains(2));
}

#[test]
fn http2_context_lifecycle() {
    let mut ctx = ctx_of(0x10);

    assert_eq!(
        hle_http2_init(&mut ctx, &[0, 0, 0, 4]),
        HTTP2_ERROR_INVALID_ARGUMENT
    );
    assert_eq!(
        hle_http2_init(&mut ctx, &[0, 0, 0x1000, 0]),
        HTTP2_ERROR_INVALID_ARGUMENT
    );
    assert_eq!(hle_http2_init(&mut ctx, &[0, 0, 0x1000, 4]), 1);
    assert_eq!(
        hle_http2_create_template(&mut ctx, &[99, 0x100, 3, 1]),
        HTTP2_ERROR_INVALID_ID
    );
    assert_eq!(hle_http2_create_template(&mut ctx, &[1, 0x100, 3, 1]), 0x1001);
    assert!(ctx.kernel.http2_templates.contains(0x1001));

    let mut registry = HleRegistry::new();
    http::register(&mut registry);
    assert!(registry.is_implemented("libSceHttp2", "sceHttp2CreateTemplate"));

    assert_eq!(hle_http2_term(&mut ctx, &[1]), OK);
    assert!(!ctx.kernel.http2_templates.contains(0x1001));
    assert_eq!(hle_http2_term(&mut ctx, &[1]), HTTP2_ERROR_INVALID_ID);
}

#[test]
fn ime_dialog_finishes_immediately_as_user_canceled() {
    let mut ctx = ctx_of(0x1000);

    assert_eq!(ime_dialog::hle_init(&mut ctx, &[0]), IME_ERROR_INVALID_ADDRESS);
    assert_eq!(ime_dialog::hle_init(&mut ctx, &[0x100, 0]), OK);
    assert_eq!(hle_get_status(&ctx) as u32, ime_dialog::STATUS_FINISHED);

    assert_eq!(hle_get_result(&mut ctx, &[0x200]), OK);
    let mut end = [0u8; 4];
    assert!(read(&ctx, 0x200, &mut end));
    assert_eq!(u32::from_le_bytes(end), END_STATUS_USER_CANCELED);
    assert_eq!(hle_get_result(&mut ctx, &[0]), IME_ERROR_INVALID_ADDRESS);

    assert_eq!(ime_dialog::hle_term(&mut ctx, &[]), OK);
    assert_eq!(hle_get_status(&ctx) as u32, ime_dialog::STATUS_NONE);

    assert_eq!(ime_dialog::hle_init(&mut ctx, &[0x100, 0]), OK);
    assert_eq!(hle_abort(&mut ctx, &[]), OK);
    assert_eq!(hle_get_result(&mut ctx, &[0x200]), OK);
    assert!(read(&ctx, 0x200, &mut end));
    assert_eq!(u32::from_le_bytes(end), END_STATUS_ABORTED);
}

#[test]
fn panel_size_is_nominal_and_pointer_checked() {
    let mut ctx = ctx_of(0x1000);
    assert_eq!(
        hle_get_panel_size_extended(&mut ctx, &[0x100, 0, 0x200, 0x210]),
        OK
    );
    let mut v = [0u8; 4];
    assert!(read(&ctx, 0x200, &mut v));
    assert_eq!(u32::from_le_bytes(v), PANEL_WIDTH);
    assert!(read(&ctx, 0x210, &mut v));
    assert_eq!(u32::from_le_bytes(v), PANEL_HEIGHT);
    assert_eq!(
        hle_get_panel_size_extended(&mut ctx, &[0, 0, 0x200, 0x210]),
        IME_ERROR_INVALID_ADDRESS
    );
    assert_eq!(
        hle_get_panel_size_extended(&mut ctx, &[0x100, 0, 0, 0x210]),
        IME_ERROR_INVALID_ADDRESS
    );

    let registry = HleRegistry::new();
    for name in [
        "sceImeDialogInit",
        "sceImeDialogGetStatus",
        "sceImeDialogGetResult",
        "sceImeDialogAbort",
        "sceImeDialogTerm",
        "sceImeDialogGetPanelSizeExtended",
    ] {
        assert!(
            registry.is_implemented("libSceImeDialog", name),
            "{name} must be registered"
        );
    }
}

#[test]
fn content_export_refuses_bad_parameter_blocks() {
    let mut ctx = ctx_of(0x1000);
    let param = 0x200u64;
    assert_eq!(content_export::hle_term(&mut ctx, &[]), ERROR_NOINIT);
    assert_eq!(content_export::hle_init(&mut ctx, &[0]), ERROR_INVALDPARAM);
    assert!(write(&mut ctx, param, &1u64.to_le_bytes()));
    assert!(write(&mut ctx, param + 8, &2u64.to_le_bytes()));
    // A buffer that is too small, and a reserved word, matter to the second
    // version alone.
    assert!(write(&mut ctx, param + 0x18, &0xFFu64.to_le_bytes()));
    assert_eq!(content_export::hle_init2(&mut ctx, &[param]), ERROR_INVALDPARAM);
    assert!(write(&mut ctx, param + 0x18, &0x100u64.to_le_bytes()));
    assert!(write(&mut ctx, param + 0x28, &1u64.to_le_bytes()));
    assert_eq!(content_export::hle_init2(&mut ctx, &[param]), ERROR_INVALDPARAM);
    assert_eq!(content_export::hle_init(&mut ctx, &[param]), OK);
    assert_eq!(content_export::hle_term(&mut ctx, &[]), OK);
    assert_eq!(content_export::hle_term(&mut ctx, &[]), ERROR_NOINIT);
}

#[test]
fn unregistering_forgets_the_crash_handler() {
    let mut ctx = ctx_of(0x10);
    assert_eq!(hle_register_handler(&mut ctx, &[1, 2]), OK);
    assert_eq!(hle_register_handler(&mut ctx, &[3, 4]), OK);
    assert_eq!(ctx.kernel.small.coredump_handler, 3);
    assert_eq!(hle_unregister_handler(&mut ctx, &[]), OK);
    assert_eq!(ctx.kernel.small.coredump_handler, 0);
    assert_eq!(ctx.kernel.small.coredump_handler_context, 0);
}

#[test]
fn the_error_that_a_title_reports_is_readable() {
    let mut ctx = ctx_of(0x100);
    assert!(write(&mut ctx, 0x44, &0x8002_0016u32.to_le_bytes()));
    assert_eq!(reported_error(&ctx, &[0x40]), Some(0x8002_0016));
    assert_eq!(reported_error(&ctx, &[0]), None);
    assert_eq!(reported_error(&ctx, &[0x5000]), None);
    // The address wraps around.
    assert!(write(&mut ctx, 0, &7u32.to_le_bytes()));
    assert_eq!(reported_error(&ctx, &[u64::MAX - 3]), Some(7));
}

#[test]
fn fiber_is_written_idle_and_retired_once() {
    let mut ctx = ctx_of(0x200);
    assert!(write(&mut ctx, 0x100, b"worker-fiber-with-a-rather-long-name\0"));
    ctx.kernel.fibers.insert(0x40, 1);
    assert_eq!(
        hle_fiber_initialize(&mut ctx, &[0x40, 0x100, 0x1000, 7, 0, 0]),
        OK
    );
    assert_eq!(read_u32(&ctx, 0x40), 0xDEF1_649C);
    assert_eq!(read_u32(&ctx, 0x44), 2);
    assert_eq!(read_u64(&ctx, 0x48), 0x1000);
    assert_eq!(read_u64(&ctx, 0x50), 7);
    let mut name = [0xFFu8; 32];
    assert!(read(&ctx, 0x68, &mut name));
    assert_eq!(&name[..31], &b"worker-fiber-with-a-rather-long-name"[..31]);
    assert_eq!(name[31], 0);
    assert_eq!(read_u32(&ctx, 0x40 + 0x68), 0xB375_92A0);
    assert_eq!(hle_fiber_finalize(&mut ctx, &[0]), FIBER_ERROR_NULL);
    assert_eq!(hle_fiber_finalize(&mut ctx, &[0x40]), OK);
    assert_eq!(read_u32(&ctx, 0x44), 3);
    assert!(!ctx.kernel.fibers.contains(0x40));
    assert_eq!(hle_fiber_finalize(&mut ctx, &[0x40]), FIBER_ERROR_STATE);
}

#[test]
fn uri_escape_reads_strings_in_whole_pieces() {
    let mut ctx = ctx_of(0x1000);
    // A string that ends where the memory ends is read; one whose last piece is
    // not mapped to its end is not.
    assert!(write(&mut ctx, 0xFC0, &[b'a'; 63]));
    assert_eq!(hle_http_uri_escape(&mut ctx, &[0, 0x200, 0, 0xFC0]), OK);
    assert_eq!(read_u64(&ctx, 0x200), 64);
    assert_eq!(
        hle_http_uri_escape(&mut ctx, &[0, 0x200, 0, 0xFE0]),
        HTTP_ERROR_INVALID_VALUE
    );
    // A size that cannot be reported is an error.
    assert_eq!(
        hle_http_uri_escape(&mut ctx, &[0, 0x5000, 0, 0xFC0]),
        HTTP_ERROR_INVALID_VALUE
    );
    // A result that cannot be written is an error, after the size was.
    assert_eq!(
        hle_http_uri_escape(&mut ctx, &[0x5000, 0x210, 64, 0xFC0]),
        HTTP_ERROR_INVALID_VALUE
    );
    assert_eq!(read_u64(&ctx, 0x210), 64);
}

#[test]
fn uri_escape_limits_the_length() {
    let mut ctx = ctx_of(0x20000);
    let longest = 65536 + 63;
    assert!(write(&mut ctx, 0x1000, &vec![b'x'; longest]));
    assert_eq!(hle_http_uri_escape(&mut ctx, &[0, 0x200, 0, 0x1000]), OK);
    assert_eq!(read_u64(&ctx, 0x200), longest as u64 + 1);
    assert!(write(&mut ctx, 0x1000, &vec![b'x'; longest + 1]));
    assert_eq!(
        hle_http_uri_escape(&mut ctx, &[0, 0x200, 0, 0x1000]),
        HTTP_ERROR_INVALID_VALUE
    );
}

#[test]
fn requests_are_refused_before_they_are_sent() {
    let mut ctx = ctx_of(0x10);
    assert_eq!(
        hle_http2_create_request_with_url(&ctx, &[0x1001]),
        HTTP2_ERROR_INVALID_ID
    );
    assert_eq!(hle_http2_init(&mut ctx, &[0, 0, 0x1000, 4]), 1);
    assert_eq!(hle_http2_create_template(&mut ctx, &[1]), 0x1001);
    assert_eq!(
        hle_http2_create_request_with_url(&ctx, &[0x1001]),
        HTTP2_ERROR_CANNOT_CONNECT
    );
    // A negative number of requests is refused.
    assert_eq!(
        hle_http2_init(&mut ctx, &[0, 0, 0x1000, 0x8000_0000]),
        HTTP2_ERROR_INVALID_ARGUMENT
    );
}

#[test]
fn a_width_stays_when_the_height_cannot_be_written() {
    let mut ctx = ctx_of(0x1000);
    assert_eq!(
        hle_get_panel_size_extended(&mut ctx, &[0x100, 0, 0x200, 0x9000]),
        IME_ERROR_INVALID_ADDRESS
    );
    assert_eq!(read_u32(&ctx, 0x200), 1920);
}

#[test]
fn every_acoustics_call_is_accepted() {
    let registry = HleRegistry::new();
    let names: Vec<&str> = registry
        .registered_names()
        .into_iter()
        .filter(|(library, _)| *library == "libSceAudioPropagation")
        .map(|(_, name)| name)
        .collect();
    assert_eq!(names.len(), 31);
    for name in names {
        let mut ctx = ctx_of(0x100);
        assert!(write(&mut ctx, 0x40, &[0xAB; 16]));
        let outcome = registry.call(&mut ctx, "libSceAudioPropagation", name, &[0x40; 6]);
        assert!(matches!(outcome, Some(Outcome::Return(0))), "{name}");
        let wrote = ctx.mem.read_u64(0x40, 0) != Some(0xABAB_ABAB_ABAB_ABAB);
        assert_eq!(wrote, name == "sceAudioPropagationSystemQueryMemory", "{name}");
    }
}
