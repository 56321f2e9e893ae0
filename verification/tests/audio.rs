//! Audio capture and audio output.
use raeen_hle::context::{HleContext, OK, SCE_ERROR_INVALID_ARGUMENT};
use raeen_hle::libsce_audio_in::{
    decode_channels, Delayed, hle_close, hle_get_silent_state, hle_input, hle_open, HANDLE_TAG,
    SCE_AUDIO_IN_ERROR_INVALID_FREQ, SCE_AUDIO_IN_ERROR_INVALID_HANDLE,
    SCE_AUDIO_IN_ERROR_INVALID_PARAM, SCE_AUDIO_IN_ERROR_INVALID_POINTER,
    SCE_AUDIO_IN_ERROR_NOT_OPENED, SCE_AUDIO_IN_ERROR_PORT_FULL, SILENT_STATE_DEVICE_NONE,
};
use raeen_hle::libsce_audio_out2::{
    PortAudio, PortSubmission, build_port_submission, decode_data_format, hle_context_create,
    hle_context_destroy, hle_context_get_queue_level, hle_context_push, hle_context_query_memory,
    hle_context_reset_param, hle_get_speaker_info, hle_port_create, hle_port_destroy,
    hle_port_get_state, hle_port_set_attributes, hle_user_create, pace_context, port,
    resolve_port_context, ATTRIBUTE_ID_PCM, CONTEXT_MEMORY_SIZE, CONTEXT_PARAM_SIZE, MAX_CHANNELS,
};
use raeen_hle::mem::GuestMemory;
use raeen_hle::pace::duration_ns;
use raeen_hle::registry::HleRegistry;

/// A process with `size` bytes of memory from address zero on.
fn ctx_of(size: usize) -> HleContext {
    let mut mem = GuestMemory::empty();
    mem.map_region(0, size);
    HleContext::new(mem)
}

fn write(ctx: &mut HleContext, addr: u64, bytes: &[u8]) -> bool {
    ctx.mem.write(addr, 0, bytes)
}

fn read(ctx: &HleContext, addr: u64, out: &mut [u8]) -> bool {
    match ctx.mem.read(addr, 0, out.len()) {
        Some(bytes) => {
            out.copy_from_slice(&bytes);
            true
        }
        None => false,
    }
}

fn read_u32(ctx: &HleContext, addr: u64) -> u32 {
    let mut b = [0u8; 4];
    assert!(read(ctx, addr, &mut b));
    u32::from_le_bytes(b)
}

fn read_u64(ctx: &HleContext, addr: u64) -> u64 {
    let mut b = [0u8; 8];
    assert!(read(ctx, addr, &mut b));
    u64::from_le_bytes(b)
}

/// The handle of the context that was created last.
fn has_context(ctx: &mut HleContext, handle: u64) -> bool {
    resolve_port_context(ctx, &[handle]) == handle
}

fn write_u32(ctx: &mut HleContext, addr: u64, v: u32) {
    assert!(write(ctx, addr, &v.to_le_bytes()));
}

fn write_u64(ctx: &mut HleContext, addr: u64, v: u64) {
    assert!(write(ctx, addr, &v.to_le_bytes()));
}

fn write_f32(ctx: &mut HleContext, addr: u64, v: f32) {
    assert!(write(ctx, addr, &v.to_le_bytes()));
}

/// Capture and return what the call returns.
fn input(ctx: &mut HleContext, args: &[u64]) -> u64 {
    hle_input(ctx, args).code
}

#[test]
fn capture_port_yields_silence_and_reports_no_device() {
    let mut ctx = ctx_of(0x1000);
    let dest = 0x400u64;
    assert!(write(&mut ctx, dest, &[0xAB; 64]));

    let handle = hle_open(&mut ctx, &[255, 1, 0, 16, 16_000, 2]);
    assert!(handle < 0x8000_0000, "open must return a positive handle, got {handle:#x}");
    assert_eq!(handle & 0xFFFF_0000, HANDLE_TAG | (1 << 16));

    assert_eq!(input(&mut ctx, &[handle, dest]), 16, "returns the grain");
    let mut got = [0xFFu8; 64];
    assert!(read(&ctx, dest, &mut got));
    assert_eq!(got, [0u8; 64], "the guest buffer must be digital silence");

    assert_eq!(hle_get_silent_state(&ctx, &[handle]), SILENT_STATE_DEVICE_NONE);
    assert_eq!(hle_close(&mut ctx, &[handle]), OK);
    assert_eq!(input(&mut ctx, &[handle, dest]), SCE_AUDIO_IN_ERROR_INVALID_HANDLE);
    assert_eq!(hle_close(&mut ctx, &[handle]), SCE_AUDIO_IN_ERROR_NOT_OPENED);
}

#[test]
fn open_rejects_unsupported_format_and_zero_rates() {
    let mut ctx = ctx_of(0x100);
    assert_eq!(
        hle_open(&mut ctx, &[255, 1, 0, 256, 48_000, 1]),
        SCE_AUDIO_IN_ERROR_INVALID_PARAM
    );
    assert_eq!(
        hle_open(&mut ctx, &[255, 1, 0, 256, 0, 2]),
        SCE_AUDIO_IN_ERROR_INVALID_FREQ
    );
    assert_eq!(
        hle_open(&mut ctx, &[255, 1, 0, 0, 48_000, 2]),
        SCE_AUDIO_IN_ERROR_INVALID_PARAM
    );
    assert_eq!(ctx.audio_in.len(), 0, "a rejected open must not consume a port");
}

#[test]
fn every_measured_import_is_registered() {
    let registry = HleRegistry::new();
    for name in [
        "sceAudioInOpen",
        "sceAudioInAsyncOpen",
        "sceAudioInClose",
        "sceAudioInInput",
        "sceAudioInGetSilentState",
    ] {
        assert!(
            registry.is_implemented("libSceAudioIn", name),
            "libSceAudioIn::{name} is imported by the measured title"
        );
    }
}

#[test]
fn capture_is_paced_and_bounded() {
    let mut ctx = ctx_of(0x2000);
    // 16 samples at 16 kHz are a millisecond.
    let short = hle_open(&mut ctx, &[255, 0, 0, 16, 16_000, 0]);
    assert_eq!(hle_input(&mut ctx, &[short, 0x400]), Delayed { code: 16, sleep_ns: 1_000_000 });
    // A second of samples is cut to a tenth of one.
    let long = hle_open(&mut ctx, &[255, 0, 0, 1000, 1000, 0]);
    assert_eq!(
        hle_input(&mut ctx, &[long, 0x400]),
        Delayed { code: 1000, sleep_ns: 100_000_000 }
    );
    assert_eq!(
        hle_input(&mut ctx, &[short, 0]),
        Delayed { code: SCE_AUDIO_IN_ERROR_INVALID_POINTER, sleep_ns: 0 }
    );
    assert_eq!(
        hle_input(&mut ctx, &[short, 0x1FF8]),
        Delayed { code: SCE_AUDIO_IN_ERROR_INVALID_POINTER, sleep_ns: 0 }
    );
    let huge = hle_open(&mut ctx, &[255, 0, 0, 0x8_0001, 48_000, 2]);
    assert_eq!(
        hle_input(&mut ctx, &[huge, 0x400]),
        Delayed { code: SCE_AUDIO_IN_ERROR_INVALID_PARAM, sleep_ns: 0 }
    );
}

#[test]
fn capture_ports_run_out_and_come_back() {
    let mut ctx = ctx_of(0x100);
    let mut handles = Vec::new();
    for port in 0..8u64 {
        let handle = hle_open(&mut ctx, &[255, 3, 0, 64, 48_000, 0]);
        assert_eq!(handle, HANDLE_TAG | (3 << 16) | port);
        handles.push(handle);
    }
    assert_eq!(
        hle_open(&mut ctx, &[255, 3, 0, 64, 48_000, 0]),
        SCE_AUDIO_IN_ERROR_PORT_FULL
    );
    assert_eq!(hle_close(&mut ctx, &[handles[5]]), OK);
    assert_eq!(hle_open(&mut ctx, &[255, 3, 0, 64, 48_000, 0]), handles[5]);
}

#[test]
fn reset_param_and_query_memory_and_speaker_info() {
    let mut ctx = ctx_of(0x200);
    assert_eq!(hle_context_reset_param(&mut ctx, &[0]), SCE_ERROR_INVALID_ARGUMENT);
    assert_eq!(hle_context_reset_param(&mut ctx, &[0x10]), OK);
    assert_eq!(read_u32(&ctx, 0x10), CONTEXT_PARAM_SIZE as u32);
    assert_eq!(read_u32(&ctx, 0x14), 2);
    assert_eq!(read_u32(&ctx, 0x18), 48000);
    assert_eq!(read_u32(&ctx, 0x1C), 0x400);

    assert_eq!(hle_context_query_memory(&mut ctx, &[0x10, 0x60]), OK);
    assert_eq!(read_u64(&ctx, 0x60), CONTEXT_MEMORY_SIZE);
    assert_eq!(
        hle_context_query_memory(&mut ctx, &[0, 0x60]),
        SCE_ERROR_INVALID_ARGUMENT
    );

    assert_eq!(hle_get_speaker_info(&mut ctx, &[0x80]), OK);
    assert_eq!(read_u32(&ctx, 0x80), 1);
    assert_eq!(read_u32(&ctx, 0x84), 2);
    assert_eq!(read_u32(&ctx, 0x88), 48000);
}

#[test]
fn context_create_returns_handle_and_validates() {
    let mut ctx = ctx_of(0x200);
    assert_eq!(
        hle_context_create(&mut ctx, &[0x10, 0x20, 0x1000, 0]),
        SCE_ERROR_INVALID_ARGUMENT
    );
    assert_eq!(hle_context_create(&mut ctx, &[0x10, 0x20, 0x1000, 0xA0]), OK);
    assert_eq!(read_u64(&ctx, 0xA0), 2);
}

#[test]
fn port_create_encodes_type_and_get_state() {
    let mut ctx = ctx_of(0x200);
    assert_eq!(hle_port_create(&mut ctx, &[0, 0x20, 0xB0, 0x30]), OK);
    let handle = read_u64(&ctx, 0xB0);
    assert_eq!(handle, 0x2000_0000 | 1);
    assert_eq!(
        hle_port_create(&mut ctx, &[256, 0x20, 0xB0, 0x30]),
        SCE_ERROR_INVALID_ARGUMENT
    );

    let handle_t2 = 0x2000_0000u64 | (2u64 << 16) | 5;
    assert_eq!(hle_port_get_state(&mut ctx, &[handle_t2, 0xC0]), OK);
    let mut buf = [0u8; 0x20];
    assert!(read(&ctx, 0xC0, &mut buf));
    assert_eq!(u16::from_le_bytes([buf[0], buf[1]]), 0x40);
    assert_eq!(buf[0x02], 1);
    assert_eq!(i16::from_le_bytes([buf[0x04], buf[0x05]]), -1);

    assert_eq!(hle_port_get_state(&mut ctx, &[handle, 0xD0]), OK);
    assert!(read(&ctx, 0xD0, &mut buf));
    assert_eq!(u16::from_le_bytes([buf[0], buf[1]]), 0x01);
    assert_eq!(buf[0x02], 2);
}

const MILLISECOND: u64 = 1_000_000;

#[test]
fn streaming_trio_is_registered_and_paces_to_the_grain() {
    let registry = HleRegistry::new();
    for name in [
        "sceAudioOut2ContextPush",
        "sceAudioOut2ContextAdvance",
        "sceAudioOut2PortSetAttributes",
    ] {
        assert!(
            registry.is_implemented("libSceAudioOut2", name),
            "libSceAudioOut2::{name} must be registered"
        );
    }

    let mut ctx = ctx_of(0x200);
    assert_eq!(hle_port_set_attributes(&mut ctx, &[0x2000_0001, 0x40]), OK);
    // Unknown context handles are tolerated without sleeping.
    assert!(hle_context_push(&ctx, &[0xdead, 0x40, 0x100, 0]).is_empty());
    assert_eq!(pace_context(&mut ctx, 0xdead, 0), 0);

    // 4800 samples at 48000 Hz are 100 ms. The first push starts the grain, the
    // second waits it out.
    let mut param = [0u8; CONTEXT_PARAM_SIZE as usize];
    param[0x08..0x0C].copy_from_slice(&48000u32.to_le_bytes());
    param[0x0C..0x10].copy_from_slice(&4800u32.to_le_bytes());
    assert!(write(&mut ctx, 0x80, &param));
    assert_eq!(hle_context_create(&mut ctx, &[0x80, 0x100, 0x1000, 0x180]), OK);
    let handle = read_u64(&ctx, 0x180);
    let t = 5_000 * MILLISECOND;
    assert_eq!(pace_context(&mut ctx, handle, t), 0);
    assert_eq!(
        pace_context(&mut ctx, handle, t + MILLISECOND),
        99 * MILLISECOND,
        "second push inside the same grain must wait it out"
    );
    // The third waits for the second to be over, the next after a quiet time
    // for nothing.
    assert_eq!(pace_context(&mut ctx, handle, t + 100 * MILLISECOND), 100 * MILLISECOND);
    assert_eq!(pace_context(&mut ctx, handle, t + 900 * MILLISECOND), 0);
    // A destroyed context is not paced any more.
    assert_eq!(hle_context_destroy(&mut ctx, &[handle]), OK);
    assert!(!has_context(&mut ctx, handle));
    assert_eq!(pace_context(&mut ctx, handle, t + 900 * MILLISECOND), 0);

    assert!(write(&mut ctx, 0x190, &u64::MAX.to_le_bytes()));
    assert_eq!(hle_context_get_queue_level(&mut ctx, &[handle, 0x190]), OK);
    assert_eq!(read_u64(&ctx, 0x190), 0);
    assert_eq!(hle_context_get_queue_level(&mut ctx, &[handle, 0]), OK);
}

#[test]
fn user_create_validates_user_id() {
    let mut ctx = ctx_of(0x200);
    assert_eq!(hle_user_create(&mut ctx, &[7, 0xE0]), SCE_ERROR_INVALID_ARGUMENT);
    assert_eq!(hle_user_create(&mut ctx, &[1000, 0xE0]), OK);
    assert_eq!(read_u64(&ctx, 0xE0), 2);
}

/// A context (grain 2 at 48 kHz) and a port of two floating-point channels with
/// its samples: the handles of the port and of the context, and the samples'
/// address.
fn setup_playing_port(ctx: &mut HleContext) -> (u64, u64, u64) {
    write_u32(ctx, 0x28, 48_000);
    write_u32(ctx, 0x2C, 2);
    assert_eq!(hle_context_create(ctx, &[0x20, 0x300, 0x100, 0x60]), OK);
    let ctx_handle = read_u64(ctx, 0x60);

    write_u32(ctx, 0x74, 0x200);
    write_u32(ctx, 0x78, 48_000);
    assert_eq!(hle_port_create(ctx, &[0, 0x70, 0x90, ctx_handle]), OK);
    let port_handle = read_u64(ctx, 0x90);

    let pcm = 0xD0u64;
    write_f32(ctx, pcm, 0.5);
    write_f32(ctx, pcm + 4, -0.5);
    write_f32(ctx, pcm + 8, 0.25);
    write_f32(ctx, pcm + 12, -0.25);

    write_u64(ctx, 0xC0, pcm);
    write_u32(ctx, 0xA0, ATTRIBUTE_ID_PCM);
    write_u32(ctx, 0xA4, 0);
    write_u64(ctx, 0xA8, 0xC0);
    write_u64(ctx, 0xB0, 8);
    assert_eq!(hle_port_set_attributes(ctx, &[port_handle, 0xA0, 1]), OK);

    (port_handle, ctx_handle, pcm)
}

#[test]
fn port_create_records_float_stereo_format_and_context_link() {
    let mut ctx = ctx_of(0x400);
    let (port_handle, ctx_handle, _pcm) = setup_playing_port(&mut ctx);
    let port = port(&ctx, port_handle).expect("port audio state stored");
    assert_eq!(port.context, ctx_handle, "port linked to its context");
    assert_eq!(port.channels, 2);
    assert!(port.is_float);
    assert_eq!(port.sample_rate, 48_000);
    assert_eq!(port.grain, 2, "grain taken from the owning context");
}

#[test]
fn set_attributes_captures_pcm_pointer() {
    let mut ctx = ctx_of(0x400);
    let (port_handle, _ctx_handle, pcm) = setup_playing_port(&mut ctx);
    let port = port(&ctx, port_handle).expect("port audio state stored");
    assert_eq!(port.pcm_ptr, pcm, "PCM attribute captured the buffer pointer");
}

/// The samples of two floating-point channels.
fn floats(s: &PortSubmission) -> Vec<f32> {
    s.pcm.chunks(4).map(|b| f32::from_le_bytes([b[0], b[1], b[2], b[3]])).collect()
}

#[test]
fn push_converts_port_pcm_to_stereo_f32_and_submits() {
    let mut ctx = ctx_of(0x400);
    let (port_handle, ctx_handle, _pcm) = setup_playing_port(&mut ctx);

    let port = port(&ctx, port_handle).expect("port audio state stored");
    let built =
        build_port_submission(&ctx.mem, &port).expect("a port with PCM produces a submission");
    assert_eq!(built.sample_rate, 48_000);
    assert_eq!((built.frames, built.channels, built.is_float), (2, 2, true));
    assert_eq!(floats(&built), vec![0.5, -0.5, 0.25, -0.25]);

    let pushed = hle_context_push(&ctx, &[ctx_handle, 0]);
    assert_eq!(pushed.len(), 1, "push must play the port");
    assert_eq!(floats(&pushed[0]), vec![0.5, -0.5, 0.25, -0.25]);
}

#[test]
fn push_without_a_pcm_buffer_does_not_submit() {
    let mut ctx = ctx_of(0x400);
    write_u32(&mut ctx, 0x28, 48_000);
    write_u32(&mut ctx, 0x2C, 2);
    assert_eq!(hle_context_create(&mut ctx, &[0x20, 0x300, 0x100, 0x60]), OK);
    let ctx_handle = read_u64(&ctx, 0x60);
    write_u32(&mut ctx, 0x74, 0x200);
    write_u32(&mut ctx, 0x78, 48_000);
    assert_eq!(hle_port_create(&mut ctx, &[0, 0x70, 0x90, ctx_handle]), OK);
    let port_handle = read_u64(&ctx, 0x90);

    let port = port(&ctx, port_handle).expect("port audio state stored");
    assert_eq!(port.pcm_ptr, 0);
    assert!(
        build_port_submission(&ctx.mem, &port).is_none(),
        "a port with no PCM buffer yields no submission"
    );
    assert!(hle_context_push(&ctx, &[ctx_handle, 0]).is_empty());
    assert_eq!(pace_context(&mut ctx, ctx_handle, 0), 0);
}

#[test]
fn build_submission_bounds_an_absurd_grain() {
    let ctx = ctx_of(0x400);
    let port = PortAudio {
        context: 0,
        channels: MAX_CHANNELS,
        is_float: true,
        sample_rate: 48_000,
        grain: u32::MAX,
        pcm_ptr: 0xD0,
    };
    assert!(build_port_submission(&ctx.mem, &port).is_none());
}

#[test]
fn set_attributes_tolerates_a_wild_attribute_pointer() {
    let mut ctx = ctx_of(0x400);
    write_u32(&mut ctx, 0x28, 48_000);
    write_u32(&mut ctx, 0x2C, 2);
    assert_eq!(hle_context_create(&mut ctx, &[0x20, 0x300, 0x100, 0x60]), OK);
    let ctx_handle = read_u64(&ctx, 0x60);
    write_u32(&mut ctx, 0x74, 0x200);
    write_u32(&mut ctx, 0x78, 48_000);
    assert_eq!(hle_port_create(&mut ctx, &[0, 0x70, 0x90, ctx_handle]), OK);
    let port_handle = read_u64(&ctx, 0x90);

    assert_eq!(hle_port_set_attributes(&mut ctx, &[port_handle, 0xFFFF_0000, 4]), OK);
    let port = port(&ctx, port_handle).expect("port audio state stored");
    assert_eq!(port.pcm_ptr, 0);
}

#[test]
fn resolve_port_context_links_via_either_abi() {
    let mut ctx = ctx_of(0x400);
    write_u32(&mut ctx, 0x28, 48_000);
    write_u32(&mut ctx, 0x2C, 2);
    assert_eq!(hle_context_create(&mut ctx, &[0x20, 0x300, 0x100, 0x60]), OK);
    let ctx_handle = read_u64(&ctx, 0x60);

    assert_eq!(resolve_port_context(&ctx, &[ctx_handle, 0x70, 0x90, 0]), ctx_handle);
    assert_eq!(resolve_port_context(&ctx, &[0, 0x70, 0x90, ctx_handle]), ctx_handle);
    assert_eq!(resolve_port_context(&ctx, &[0xDEAD, 0x70, 0x90, 0xBEEF]), 0);
}

#[test]
fn destroying_a_context_takes_its_ports_and_no_others() {
    let mut ctx = ctx_of(0x400);
    let (first, ctx_first, _) = setup_playing_port(&mut ctx);
    let (second, ctx_second, _) = setup_playing_port(&mut ctx);
    assert_ne!(ctx_first, ctx_second);
    assert_ne!(first, second);
    assert_eq!(hle_context_destroy(&mut ctx, &[ctx_first]), OK);
    assert!(port(&ctx, first).is_none());
    assert!(port(&ctx, second).is_some());
    assert_eq!(hle_context_push(&ctx, &[ctx_second]).len(), 1);
    assert_eq!(hle_port_destroy(&mut ctx, &[second]), OK);
    assert!(port(&ctx, second).is_none());
    assert!(hle_context_push(&ctx, &[ctx_second]).is_empty());
}

#[test]
fn formats_and_durations() {
    assert_eq!(decode_data_format(0x200), (2, true));
    assert_eq!(decode_data_format(0x801), (8, false));
    assert_eq!(decode_data_format(0), (2, true));
    assert_eq!(decode_data_format(0xFF01), (16, false));
    assert_eq!(duration_ns(4800, 48_000), 100_000_000);
    assert_eq!(duration_ns(1, 3), 333_333_333);
    assert_eq!(duration_ns(2, 3), 666_666_667);
    assert_eq!(duration_ns(u32::MAX, 1), 4_294_967_295_000_000_000);
}

#[test]
fn only_two_capture_formats_open() {
    let mut ctx = ctx_of(0x100);
    assert_eq!(decode_channels(0), Some(1));
    assert_eq!(decode_channels(2), Some(2));
    for format in [1, 3, 0x10, 0x12, 0x100, 0x1_0000_0000, 0x1_0000_0002] {
        assert_eq!(decode_channels(format), None, "{format:#x}");
        assert_eq!(
            hle_open(&mut ctx, &[255, 1, 0, 256, 48_000, format]),
            SCE_AUDIO_IN_ERROR_INVALID_PARAM
        );
    }
    assert_eq!(ctx.audio_in.len(), 0);
}

#[test]
fn half_nanoseconds_round_to_even() {
    assert_eq!(duration_ns(1, 1024), 976_562);
    assert_eq!(duration_ns(3, 1024), 2_929_688);
}

#[test]
fn handles_are_positive_whatever_the_type() {
    for kind in [0u64, 1, 0x4FFF, 0x5000, 0x7FFF, 0x8000, 0x8001, 0xFFFF, u64::MAX] {
        let mut ctx = ctx_of(0x100);
        let handle = hle_open(&mut ctx, &[255, kind, 0, 256, 48_000, 2]);
        assert!(0 < handle && handle < 0x8000_0000, "type {kind:#x}: {handle:#x}");
        assert_eq!(handle, HANDLE_TAG | ((kind & 0x7FFF) << 16));
        assert_eq!(hle_close(&mut ctx, &[handle]), OK);
    }
}
