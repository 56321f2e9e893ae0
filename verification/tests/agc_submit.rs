//! Submissions, the driver, shader metadata and register defaults.
use raeen_hle::agc::builders::{hle_cb_release_mem, hle_dcb_set_base_indirect_args};
use raeen_hle::agc::data::hle_dcb_push_marker;
use raeen_hle::agc::defaults::{
    DefaultsState, defaults_allocated, hle_get_register_defaults2,
    hle_get_register_defaults2_internal, REG_DEFAULTS_COUNT_OFFSET, REG_DEFAULTS_HEADER_BYTES,
};
use raeen_hle::agc::driver::{
    hle_driver_add_eq_event, hle_driver_delete_eq_event, hle_driver_get_default_owner,
    hle_driver_init_resource_registration, hle_driver_query_resource_memory,
    hle_driver_register_default_owner, hle_driver_register_owner, hle_driver_register_resource,
    hle_suspend_point,
};
use raeen_hle::agc::packet::{
    pm4, CB_CURSOR_DOWN, CB_CURSOR_UP, CB_RESERVED_DW, IT_DISPATCH_DIRECT, IT_EVENT_WRITE,
    IT_INDEX_TYPE, IT_NOP, IT_SET_BASE, R_DRAW_INDEX_AUTO, R_FLIP, R_PUSH_MARKER, R_RELEASE_MEM,
    R_WAIT_MEM32, R_WRITE_DATA, R_ZERO,
};
use raeen_hle::agc::reg_defaults::{CX_REG_INFO1, SH_REG_INFO1, UC_REG_INFO1};
use raeen_hle::agc::segment::collect_acb_wait_addresses;
use raeen_hle::agc::shader::{
    read_shader_mapped_data, SHADER_INPUT_SEMANTICS_OFFSET, SHADER_NUM_INPUT_SEMANTICS_OFFSET,
    SHADER_USER_DATA_OFFSET,
};
use raeen_hle::agc::sizes::hle_driver_trigger_capture;
use raeen_hle::agc::submit::{
    DecodedSubmission, GpuClock, MemoryCopy, MemoryWrite, OrderedGpuSideEffect, SubmitState,
    apply_ordered_gpu_side_effects, decoded, drained, hle_driver_submit_acb,
    hle_driver_submit_dcb, hle_driver_submit_multi_acbs, hle_driver_submit_multi_dcbs,
    next_gpu_timestamp, ACB_DESCRIPTOR_MAGIC,
};
use raeen_hle::context::{
    CompactRegisterDefaults, Flip, GpuQueue, HleContext, SCE_ERROR_INVALID_ARGUMENT,
    SCE_ERROR_NOT_FOUND,
};
use raeen_hle::events::{EqueueUserEvent, EVFILT_GRAPHICS_CORE};
use raeen_hle::mem::GuestMemory;
use raeen_hle::registry::HleRegistry;

/// A process with `size` bytes of memory from address zero on.
fn ctx_of(size: usize) -> HleContext {
    let mut mem = GuestMemory::empty();
    mem.map_region(0, size);
    HleContext::new(mem)
}

fn write(ctx: &mut HleContext, addr: u64, bytes: &[u8]) -> bool {
    ctx.mem.write(addr, 0, bytes)
}

fn read(ctx: &HleContext, addr: u64, out: &mut [u8]) -> bool {
    match ctx.mem.read(addr, 0, out.len()) {
        Some(bytes) => {
            out.copy_from_slice(&bytes);
            true
        }
        None => false,
    }
}

fn read_u32(ctx: &HleContext, addr: u64) -> u32 {
    let mut b = [0u8; 4];
    assert!(read(ctx, addr, &mut b));
    u32::from_le_bytes(b)
}

fn read_u64(ctx: &HleContext, addr: u64) -> u64 {
    let mut b = [0u8; 8];
    assert!(read(ctx, addr, &mut b));
    u64::from_le_bytes(b)
}

/// A process with the memory that most cases need.
fn ctx_env() -> HleContext {
    ctx_of(0x2000)
}

/// Set up a command-buffer object at `cb` with a data region [start, end).
fn setup_cb(ctx: &mut HleContext, cb: u64, start: u64, end: u64) {
    assert!(write(ctx, cb + CB_CURSOR_UP, &start.to_le_bytes()));
    assert!(write(ctx, cb + CB_CURSOR_DOWN, &end.to_le_bytes()));
    assert!(write(ctx, cb + CB_RESERVED_DW, &0u32.to_le_bytes()));
}

fn write_words(ctx: &mut HleContext, addr: u64, words: &[u32]) {
    for (i, w) in words.iter().enumerate() {
        assert!(write(ctx, addr + i as u64 * 4, &w.to_le_bytes()));
    }
}

/// A host for submissions: it decodes the packets that these cases use.
struct Host {
    defer: bool,
    unified: bool,
    now: u64,
    effects: Vec<OrderedGpuSideEffect>,
}

fn host() -> Host {
    Host { defer: false, unified: false, now: 0, effects: Vec::new() }
}

fn quad(lo: u32, hi: u32) -> u64 {
    u64::from(lo) | (u64::from(hi) << 32)
}

fn decode(words: &[u32]) -> Option<DecodedSubmission> {
    let mut d = DecodedSubmission {
        memory_writes: Vec::new(),
        timestamp_writes: Vec::new(),
        memory_copies: Vec::new(),
        memory_fills: Vec::new(),
        events: Vec::new(),
        eop_interrupts: Vec::new(),
        flips: Vec::new(),
        draw_packets: 0,
        dispatch_packets: 0,
    };
    let mut i = 0usize;
    while i < words.len() {
        let h = words[i];
        if h == 0 {
            i += 1;
            continue;
        }
        let len = ((h >> 16) & 0x3FFF) as usize + 2;
        if h >> 30 != 3 || i + len > words.len() {
            return None;
        }
        let p = &words[i..i + len];
        let op = (h >> 8) & 0xFF;
        let kind = (h >> 2) & 0x3F;
        if op == IT_NOP && kind == R_RELEASE_MEM {
            let address = quad(p[3], p[4]);
            match (p[2] >> 16) & 0xFF {
                1 => d.memory_writes.push(MemoryWrite { address, data: p[5].to_le_bytes().to_vec() }),
                2 => d.memory_writes.push(MemoryWrite {
                    address,
                    data: quad(p[5], p[6]).to_le_bytes().to_vec(),
                }),
                3 => d.timestamp_writes.push(address),
                _ => {}
            }
            if p[2] >> 24 != 0 {
                d.eop_interrupts.push(p[7]);
            }
        } else if op == IT_NOP && kind == R_FLIP {
            d.flips.push(Flip {
                video_out_handle: p[1],
                display_buffer_index: p[2],
                flip_mode: p[3],
                flip_arg: quad(p[4], p[5]),
            });
        } else if op == IT_NOP && kind == R_WRITE_DATA {
            let mut data = Vec::new();
            for w in &p[4..] {
                data.extend_from_slice(&w.to_le_bytes());
            }
            d.memory_writes.push(MemoryWrite { address: quad(p[2], p[3]), data });
        } else if op == IT_NOP && kind == R_DRAW_INDEX_AUTO {
            d.draw_packets += 1;
        } else if op == IT_EVENT_WRITE {
            d.events.push(p[1] & 0x3F);
        } else if op == IT_DISPATCH_DIRECT {
            d.dispatch_packets += 1;
        } else if op == 0x50 {
            d.memory_copies.push(MemoryCopy {
                src: quad(p[2], p[3]),
                dst: quad(p[4], p[5]),
                num_bytes: p[6],
            });
        }
        i += len;
    }
    Some(d)
}

/// Run a submission to its end.
fn run(ctx: &mut HleContext, host: &mut Host, start: SubmitState) -> u64 {
    let mut state = start;
    loop {
        let words: Option<Vec<u32>> = match &state {
            SubmitState::Done { code } => return *code,
            SubmitState::Drain { .. } => None,
            SubmitState::Decode { stream, .. } => Some(stream.words.clone()),
        };
        state = match words {
            None => {
                let effects = std::mem::take(&mut host.effects);
                drained(ctx, state, &effects)
            }
            Some(words) => {
                let d = decode(&words);
                let fences = match &d {
                    Some(d) => d.timestamp_writes.len(),
                    None => 0,
                };
                let mut readings = Vec::new();
                for _ in 0..fences {
                    host.now += 1;
                    readings.push(host.now);
                }
                let clock = GpuClock { unified: host.unified, readings };
                decoded(ctx, state, d, host.defer, &clock)
            }
        };
    }
}

fn submit_dcb(ctx: &mut HleContext, host: &mut Host, args: &[u64]) -> u64 {
    let start = hle_driver_submit_dcb(ctx, args);
    run(ctx, host, start)
}

fn submit_acb(ctx: &mut HleContext, host: &mut Host, args: &[u64]) -> u64 {
    let start = hle_driver_submit_acb(ctx, args);
    run(ctx, host, start)
}

fn submit_multi_dcbs(ctx: &mut HleContext, host: &mut Host, args: &[u64]) -> u64 {
    let start = hle_driver_submit_multi_dcbs(ctx, args);
    run(ctx, host, start)
}

fn submit_multi_acbs(ctx: &mut HleContext, host: &mut Host, args: &[u64]) -> u64 {
    let start = hle_driver_submit_multi_acbs(ctx, args);
    run(ctx, host, start)
}

fn event(ctx: &HleContext, eq: u64, id: u64) -> EqueueUserEvent {
    ctx.kernel.kernel_equeue_events.get(eq, id).expect("a registered event")
}

#[test]
fn submit_signals_timestamp_fences_and_eop_interrupts() {
    let mut ctx = ctx_env();
    let mut host = host();
    let words: [u32; 16] = [
        pm4(8, IT_NOP, R_RELEASE_MEM),
        0,
        3 << 16,
        0x980,
        0,
        0,
        0,
        0,
        pm4(8, IT_NOP, R_RELEASE_MEM),
        0,
        2 << 24,
        0,
        0,
        0,
        0,
        0x55,
    ];
    write_words(&mut ctx, 0x900, &words);
    let eq = ctx.create_equeue();
    assert_eq!(hle_driver_add_eq_event(&mut ctx, &[eq, 0x84, 0xCAFE]), 0);
    // Bystanders on the same queue: an event with the default filter and one of
    // video output.
    ctx.kernel.kernel_equeue_events.insert(eq, 0x99, EqueueUserEvent::default());
    ctx.kernel
        .kernel_equeue_events
        .insert(eq, 0x9a, EqueueUserEvent { filter: -13, ..Default::default() });
    assert!(write(&mut ctx, 0x180, &0x900u64.to_le_bytes()));
    assert!(write(&mut ctx, 0x188, &16u32.to_le_bytes()));
    assert_eq!(submit_dcb(&mut ctx, &mut host, &[0x180]), 0);
    let first = read_u64(&ctx, 0x980);
    assert_ne!(first, 0, "timestamp fence must not stay zero");
    let fired = event(&ctx, eq, 0x84);
    assert!(fired.triggered, "EOP interrupt must trigger the AGC event");
    assert_eq!(fired.filter, EVFILT_GRAPHICS_CORE);
    assert_eq!(fired.data, 0x55);
    assert!(!event(&ctx, eq, 0x99).triggered, "user event must not see the EOP broadcast");
    assert!(!event(&ctx, eq, 0x9a).triggered, "VideoOut event must not see the EOP broadcast");
    // A second submission advances the fence.
    assert_eq!(submit_dcb(&mut ctx, &mut host, &[0x180]), 0);
    let second = read_u64(&ctx, 0x980);
    assert!(second > first, "timestamp fence must advance: {first} -> {second}");
}

#[test]
fn push_marker_packs_the_string_and_init_validates() {
    let mut ctx = ctx_env();
    let mut host = host();
    let cb = 0x40;
    setup_cb(&mut ctx, cb, 0x400, 0x800);
    assert!(write(&mut ctx, 0x100, b"AB\0"));
    let ret = hle_dcb_push_marker(&mut ctx, &[cb, 0x100]);
    assert_eq!(ret, 0x400);
    assert_eq!(read_u32(&ctx, 0x400), pm4(2, IT_NOP, R_PUSH_MARKER));
    assert_eq!(read_u32(&ctx, 0x404), 0x0000_4241);
    assert_eq!(read_u64(&ctx, cb + CB_CURSOR_UP), 0x408);
    assert_eq!(hle_driver_init_resource_registration(&mut ctx, &[0x1000, 0x100, 4]), 0);
    assert_eq!(
        hle_driver_init_resource_registration(&mut ctx, &[0, 0x100, 4]),
        SCE_ERROR_INVALID_ARGUMENT
    );
    let b = hle_dcb_set_base_indirect_args(&mut ctx, &[cb, 3, 0x1234_5678_9ABC_DEF8]);
    assert_eq!(read_u32(&ctx, b), pm4(4, IT_SET_BASE, R_ZERO) | (3 << 1));
    assert_eq!(read_u32(&ctx, b + 8), 0x9ABC_DEF8 & !7);
    let words = [
        pm4(2, IT_NOP, R_DRAW_INDEX_AUTO),
        3,
        pm4(8, IT_NOP, R_RELEASE_MEM),
        0,
        2u32 << 16,
        0x980,
        0,
        0x7654_3210,
        0xfedc_ba98,
        0,
        pm4(6, IT_NOP, R_FLIP),
        1,
        1,
        1,
        0x89ab_cdef,
        0x0123_4567,
        pm4(2, IT_EVENT_WRITE, R_ZERO),
        0x2a,
    ];
    write_words(&mut ctx, 0x900, &words);
    let eq = ctx.create_equeue();
    assert_eq!(hle_driver_add_eq_event(&mut ctx, &[eq, 0x2a, 0xCAFE]), 0);
    assert!(write(&mut ctx, 0x180, &0x900u64.to_le_bytes()));
    assert!(write(&mut ctx, 0x188, &18u32.to_le_bytes()));
    assert_eq!(submit_dcb(&mut ctx, &mut host, &[0x180]), 0);
    assert_eq!(submit_acb(&mut ctx, &mut host, &[7, 0x180]), 0);
    assert_eq!(ctx.kernel.agc.submission_count, 2);
    assert_eq!(ctx.kernel.agc.draw_packet_count, 2);
    assert_eq!(ctx.kernel.agc.last_dcb_address, 0x900);
    assert_eq!(ctx.kernel.agc.last_dcb_dwords, 18);
    assert_eq!(read_u64(&ctx, 0x980), 0xfedc_ba98_7654_3210);
    assert!(event(&ctx, eq, 0x2a).triggered);
    assert_eq!(ctx.gpu.flips.len(), 2);
    assert_eq!(ctx.gpu.flips[1].flip_arg, 0x0123_4567_89ab_cdef);
    assert_eq!(submit_dcb(&mut ctx, &mut host, &[0]), SCE_ERROR_INVALID_ARGUMENT);
    assert!(write(&mut ctx, 0x1A0, &0x400u64.to_le_bytes()));
    assert!(write(&mut ctx, 0x1A8, &0x500u64.to_le_bytes()));
    assert!(write(&mut ctx, 0x1C0, &8u32.to_le_bytes()));
    assert!(write(&mut ctx, 0x1C4, &4u32.to_le_bytes()));
    assert_eq!(submit_multi_dcbs(&mut ctx, &mut host, &[0x1A0, 0x1C0, 2]), 0);
    assert_eq!(
        submit_multi_dcbs(&mut ctx, &mut host, &[0, 0x1C0, 2]),
        SCE_ERROR_INVALID_ARGUMENT
    );
    assert_eq!(hle_driver_query_resource_memory(&mut ctx, &[0x1E0, 2, 3]), 0);
    assert_eq!(read_u64(&ctx, 0x1E0), 2 * 0x118 + 3 * 0x1E0);
}

#[test]
fn submit_dcb_with_draw_drives_m2_gpu_session() {
    let mut ctx = ctx_env();
    let mut host = host();
    // One draw, set up by an index type and a count.
    let words = [
        pm4(2, IT_INDEX_TYPE, R_ZERO),
        0,
        pm4(7, IT_NOP, R_DRAW_INDEX_AUTO),
        3,
        0,
        0,
        0,
        0,
        0,
    ];
    write_words(&mut ctx, 0xB00, &words);
    assert!(write(&mut ctx, 0x280, &0xB00u64.to_le_bytes()));
    assert!(write(&mut ctx, 0x288, &(words.len() as u32).to_le_bytes()));

    assert_eq!(submit_dcb(&mut ctx, &mut host, &[0x280]), 0);
    assert_eq!(ctx.kernel.agc.draw_packet_count, 1);
    assert_eq!(ctx.gpu.submissions.len(), 1);
    assert_eq!(ctx.gpu.submissions[0].words, words);
    assert_eq!(ctx.gpu.submissions[0].queue, GpuQueue::Graphics);
    assert_eq!(ctx.gpu.waits, 0);
    assert_eq!(hle_suspend_point(&mut ctx, &[]), 0);
    assert_eq!(
        ctx.gpu.waits, 1,
        "SuspendPoint must drain asynchronous GPU work before guest memory is recycled"
    );
}

const HDR_WRITE_DATA_1DW: u32 = 0xC000_0000 | (3 << 16) | (0x10 << 8) | (0x15 << 2);
const HDR_DMA_DATA: u32 = 0xC000_0000 | (5 << 16) | (0x50 << 8);

/// A label write (0x900 <- 0xAB) followed by a copy to unmapped memory, at
/// 0xB00, with the submit descriptor at 0x280.
fn write_side_effect_dcb(ctx: &mut HleContext) {
    let words = [
        HDR_WRITE_DATA_1DW,
        1,
        0x900,
        0,
        0xAB,
        HDR_DMA_DATA,
        0,
        0xA00,
        0,
        0xDEAD_0000,
        0,
        8,
    ];
    write_words(ctx, 0xB00, &words);
    assert!(write(ctx, 0x280, &0xB00u64.to_le_bytes()));
    assert!(write(ctx, 0x288, &12u32.to_le_bytes()));
    assert!(write(ctx, 0x900, &0u64.to_le_bytes()));
}

#[test]
fn submit_applies_side_effects_eagerly_by_default() {
    let mut ctx = ctx_env();
    let mut host = host();
    write_side_effect_dcb(&mut ctx);
    assert_eq!(
        submit_dcb(&mut ctx, &mut host, &[0x280]),
        SCE_ERROR_INVALID_ARGUMENT,
        "fail-closed default: the unmapped DMA dst must fail the submit"
    );
    assert_eq!(
        read_u64(&ctx, 0x900),
        0xAB,
        "the label write is eager by default (it ran before the DMA fault)"
    );
}

#[test]
fn defer_gate_defers_labels_and_fails_open_on_bad_dma() {
    let mut ctx = ctx_env();
    let mut host = host();
    host.defer = true;
    write_side_effect_dcb(&mut ctx);
    assert_eq!(
        submit_dcb(&mut ctx, &mut host, &[0x280]),
        0,
        "fail-open when deferring: the unmapped DMA dst must not fail the submit"
    );
    assert_eq!(
        read_u64(&ctx, 0x900),
        0,
        "when deferring, the label write is deferred to the GPU worker"
    );
    assert_eq!(
        ctx.gpu.submissions.len(),
        1,
        "the decoded buffer must still reach the GPU pipeline"
    );
}

/// An event write (id 0x2A), an interrupt (context 0x55) and a flip (handle 1,
/// buffer 2, mode 1, argument 9) at 0xB00, with the submit descriptor at 0x280.
fn write_event_eop_flip_dcb(ctx: &mut HleContext) {
    let words = [
        pm4(3, IT_EVENT_WRITE, R_ZERO),
        0x2A,
        0,
        pm4(8, IT_NOP, R_RELEASE_MEM),
        0,
        2 << 24,
        0,
        0,
        0,
        0,
        0x55,
        pm4(7, IT_NOP, R_FLIP),
        1,
        2,
        1,
        9,
        0,
        0,
    ];
    write_words(ctx, 0xB00, &words);
    assert!(write(ctx, 0x280, &0xB00u64.to_le_bytes()));
    assert!(write(ctx, 0x288, &(words.len() as u32).to_le_bytes()));
}

/// A graphics event (id 0x84) and a plain one (id 0x2A) on a new queue.
fn register_event_observers(ctx: &mut HleContext) -> u64 {
    let eq = ctx.create_equeue();
    assert_eq!(hle_driver_add_eq_event(ctx, &[eq, 0x84, 0]), 0);
    ctx.kernel.kernel_equeue_events.insert(eq, 0x2A, EqueueUserEvent::default());
    eq
}

#[test]
fn eager_default_applies_events_eop_and_flips_at_submit() {
    let mut ctx = ctx_env();
    let mut host = host();
    write_event_eop_flip_dcb(&mut ctx);
    let eq = register_event_observers(&mut ctx);
    assert_eq!(submit_dcb(&mut ctx, &mut host, &[0x280]), 0);
    assert!(event(&ctx, eq, 0x2A).triggered, "EVENT_WRITE fires at submit by default");
    assert!(event(&ctx, eq, 0x84).triggered, "the EOP interrupt fires at submit by default");
    assert_eq!(ctx.gpu.flips.len(), 1, "the embedded flip completes at submit by default");
    assert!(host.effects.is_empty());
}

#[test]
fn defer_gate_defers_events_eop_and_flips_to_the_worker_drain() {
    let mut ctx = ctx_env();
    let mut host = host();
    host.defer = true;
    write_event_eop_flip_dcb(&mut ctx);
    let eq = register_event_observers(&mut ctx);
    assert_eq!(submit_dcb(&mut ctx, &mut host, &[0x280]), 0);
    assert!(
        !event(&ctx, eq, 0x2A).triggered,
        "when deferring, the EVENT_WRITE must not fire at submit"
    );
    assert!(
        !event(&ctx, eq, 0x84).triggered,
        "when deferring, the EOP interrupt must not fire at submit"
    );
    assert_eq!(ctx.gpu.flips.len(), 0, "when deferring, the flip must not become visible at submit");

    let effects = [
        OrderedGpuSideEffect::EventWrite { event_id: 0x2A },
        OrderedGpuSideEffect::EopInterrupt { context_id: 0x55 },
        OrderedGpuSideEffect::Flip {
            flip: Flip {
                video_out_handle: 1,
                display_buffer_index: 2,
                flip_mode: 1,
                flip_arg: 9,
            },
        },
    ];
    apply_ordered_gpu_side_effects(&mut ctx, &effects);
    assert!(event(&ctx, eq, 0x2A).triggered, "the drain delivers the EVENT_WRITE");
    let eop = event(&ctx, eq, 0x84);
    assert!(eop.triggered, "the drain delivers the EOP interrupt");
    assert_eq!(eop.data, 0x55, "with the packet's INT_CTXID");
    assert_eq!(ctx.gpu.flips.len(), 1, "the drain completes the flip");
    assert_eq!(ctx.gpu.flips[0].flip_arg, 9, "with the packet's flip arg");
}

#[test]
fn effects_of_earlier_work_are_delivered_before_the_next_submission() {
    let mut ctx = ctx_env();
    let mut host = host();
    host.defer = true;
    write_event_eop_flip_dcb(&mut ctx);
    let eq = register_event_observers(&mut ctx);
    host.effects.push(OrderedGpuSideEffect::EventWrite { event_id: 0x2A });
    assert_eq!(submit_dcb(&mut ctx, &mut host, &[0x280]), 0);
    assert!(event(&ctx, eq, 0x2A).triggered);
    assert_eq!(event(&ctx, eq, 0x2A).fflags, 1);
    assert!(!event(&ctx, eq, 0x84).triggered);
}

#[test]
fn unified_gpu_clock_gate_shares_one_clock_with_the_worker() {
    let mut ctx = ctx_env();
    let first = next_gpu_timestamp(&mut ctx, 0);
    let second = next_gpu_timestamp(&mut ctx, 0);
    assert!(second > first, "session clock advances: {first} -> {second}");
    assert_eq!(ctx.kernel.agc.gpu_timestamp, second, "session clock: the session clock lives on the kernel");

    // A fence under the unified clock takes the clock's own reading.
    let mut host = host();
    host.unified = true;
    let words: [u32; 8] = [pm4(8, IT_NOP, R_RELEASE_MEM), 0, 3 << 16, 0x980, 0, 0, 0, 0];
    write_words(&mut ctx, 0x900, &words);
    assert!(write(&mut ctx, 0x180, &0x900u64.to_le_bytes()));
    assert!(write(&mut ctx, 0x188, &8u32.to_le_bytes()));
    host.now = 1000;
    let worker_before = host.now;
    assert_eq!(submit_dcb(&mut ctx, &mut host, &[0x180]), 0);
    let eager = read_u64(&ctx, 0x980);
    host.now += 1;
    let worker_after = host.now;
    assert!(
        worker_before < eager && eager < worker_after,
        "one strictly-increasing clock across both writers: \
         {worker_before} < {eager} < {worker_after}"
    );
    assert_eq!(
        ctx.kernel.agc.gpu_timestamp, second,
        "unified clock: the kernel session clock is untouched"
    );
}

#[test]
fn submit_acb_unwraps_the_five_dword_descriptor_indirection() {
    let mut ctx = ctx_env();
    let mut host = host();
    let acb = [pm4(5, IT_DISPATCH_DIRECT, R_ZERO), 8, 4, 2, 1];
    write_words(&mut ctx, 0x600, &acb);
    write_words(&mut ctx, 0x900, &[0x600u32, 0, 5, 0, ACB_DESCRIPTOR_MAGIC]);
    assert!(write(&mut ctx, 0x180, &0x900u64.to_le_bytes()));
    assert!(write(&mut ctx, 0x188, &5u32.to_le_bytes()));
    assert_eq!(submit_acb(&mut ctx, &mut host, &[7, 0x180]), 0);
    assert_eq!(ctx.gpu.submissions.len(), 1);
    assert_eq!(
        ctx.gpu.submissions[0].words, acb,
        "the REAL stream reached the GPU, not the descriptor dwords"
    );
    assert_eq!(ctx.gpu.submissions[0].queue, GpuQueue::AsyncCompute);
    assert_eq!(
        ctx.kernel.agc.dispatch_packet_count, 1,
        "the unwrapped stream's dispatch was decoded"
    );
}

#[test]
fn submit_acb_without_the_magic_is_the_stream_itself() {
    let mut ctx = ctx_env();
    let mut host = host();
    let acb = [pm4(5, IT_DISPATCH_DIRECT, R_ZERO), 1, 1, 1, 1];
    write_words(&mut ctx, 0x600, &acb);
    assert!(write(&mut ctx, 0x180, &0x600u64.to_le_bytes()));
    assert!(write(&mut ctx, 0x188, &5u32.to_le_bytes()));
    assert_eq!(submit_acb(&mut ctx, &mut host, &[7, 0x180]), 0);
    assert_eq!(ctx.gpu.submissions.len(), 1);
    assert_eq!(ctx.gpu.submissions[0].words, acb);
}

/// Submit a two-DWORD graphics stream at 0x400, which starts a pending segment
/// right behind it.
fn submit_short_dcb(ctx: &mut HleContext, host: &mut Host) {
    write_words(ctx, 0x400, &[pm4(2, IT_NOP, R_ZERO), 0]);
    assert!(write(ctx, 0x180, &0x400u64.to_le_bytes()));
    assert!(write(ctx, 0x188, &2u32.to_le_bytes()));
    assert_eq!(submit_dcb(ctx, host, &[0x180]), 0);
}

/// Put a compute stream at 0x700 and its descriptor at 0x190.
fn place_acb(ctx: &mut HleContext, acb: &[u32]) {
    write_words(ctx, 0x700, acb);
    assert!(write(ctx, 0x190, &0x700u64.to_le_bytes()));
    assert!(write(ctx, 0x198, &(acb.len() as u32).to_le_bytes()));
}

#[test]
fn acb_flushes_the_pending_graphics_segment_producer_first() {
    let mut ctx = ctx_env();
    let mut host = host();
    submit_short_dcb(&mut ctx, &mut host);
    let cb = 0x40;
    setup_cb(&mut ctx, cb, 0x408, 0x800);
    let rm = hle_cb_release_mem(&mut ctx, &[cb, 0, 0, 0, 0, 0x980, 1, 0x42, 0, 0, 0, 0]);
    assert_eq!(rm, 0x408, "the builder allocated at the segment start");
    let acb = [
        pm4(6, IT_NOP, R_WAIT_MEM32),
        0x980,
        0,
        0xFFFF_FFFF,
        3,
        0x42,
        pm4(5, IT_DISPATCH_DIRECT, R_ZERO),
        1,
        1,
        1,
        1,
    ];
    place_acb(&mut ctx, &acb);
    assert_eq!(submit_acb(&mut ctx, &mut host, &[7, 0x190]), 0);
    assert_eq!(ctx.gpu.submissions.len(), 3, "DCB, flushed segment, ACB");
    assert_eq!(
        ctx.gpu.submissions[1].queue,
        GpuQueue::Graphics,
        "the pending segment flushes on the graphics queue"
    );
    assert_eq!(ctx.gpu.submissions[1].words.len(), 8);
    assert_eq!(ctx.gpu.submissions[1].words[0], pm4(8, IT_NOP, R_RELEASE_MEM));
    assert_eq!(ctx.gpu.submissions[2].queue, GpuQueue::AsyncCompute);
    assert_eq!(read_u32(&ctx, 0x980), 0x42);
    let segment = ctx.kernel.agc.segment;
    assert_eq!(segment.start, 0x408 + 8 * 4);
    assert_eq!(segment.end, segment.start, "nothing pending after the flush");
}

#[test]
fn acb_wait_match_truncates_the_flush_to_its_producer() {
    let mut ctx = ctx_env();
    let mut host = host();
    submit_short_dcb(&mut ctx, &mut host);
    let cb = 0x40;
    setup_cb(&mut ctx, cb, 0x408, 0x800);
    assert_eq!(
        hle_cb_release_mem(&mut ctx, &[cb, 0, 0, 0, 0, 0x980, 1, 0x42, 0, 0, 0, 0]),
        0x408
    );
    assert_eq!(
        hle_cb_release_mem(&mut ctx, &[cb, 0, 0, 0, 0, 0x9A0, 1, 0x43, 0, 0, 0, 0]),
        0x428
    );
    place_acb(&mut ctx, &[pm4(6, IT_NOP, R_WAIT_MEM32), 0x980, 0, 0xFFFF_FFFF, 3, 0x42]);
    assert_eq!(submit_acb(&mut ctx, &mut host, &[7, 0x190]), 0);
    assert_eq!(ctx.gpu.submissions.len(), 3);
    assert_eq!(
        ctx.gpu.submissions[1].words.len(),
        8,
        "flush truncated to the awaited producer only"
    );
    assert_eq!(read_u32(&ctx, 0x980), 0x42, "awaited label written");
    assert_eq!(read_u32(&ctx, 0x9A0), 0, "unawaited producer NOT flushed");
}

#[test]
fn non_contiguous_allocations_do_not_join_the_pending_segment() {
    let mut ctx = ctx_env();
    let mut host = host();
    submit_short_dcb(&mut ctx, &mut host);
    let cb = 0x40;
    setup_cb(&mut ctx, cb, 0x500, 0x800);
    assert_eq!(
        hle_cb_release_mem(&mut ctx, &[cb, 0, 0, 0, 0, 0x980, 1, 0x42, 0, 0, 0, 0]),
        0x500
    );
    place_acb(&mut ctx, &[pm4(6, IT_NOP, R_WAIT_MEM32), 0x980, 0, 0xFFFF_FFFF, 3, 0x42]);
    assert_eq!(submit_acb(&mut ctx, &mut host, &[7, 0x190]), 0);
    assert_eq!(
        ctx.gpu.submissions.len(),
        2,
        "no segment flush: the gapped allocation was never tracked"
    );
    assert_eq!(ctx.gpu.submissions[1].queue, GpuQueue::AsyncCompute);
}

#[test]
fn multi_submit_routes_each_buffer_to_the_gpu_queue() {
    let mut ctx = ctx_env();
    let mut host = host();
    for base in [0x400u64, 0x500] {
        write_words(&mut ctx, base, &[pm4(2, IT_NOP, R_ZERO), 0]);
    }
    assert!(write(&mut ctx, 0x1A0, &0x400u64.to_le_bytes()));
    assert!(write(&mut ctx, 0x1A8, &0x500u64.to_le_bytes()));
    assert!(write(&mut ctx, 0x1C0, &2u32.to_le_bytes()));
    assert!(write(&mut ctx, 0x1C4, &2u32.to_le_bytes()));

    assert_eq!(submit_multi_dcbs(&mut ctx, &mut host, &[0x1A0, 0x1C0, 2]), 0);
    assert_eq!(submit_multi_acbs(&mut ctx, &mut host, &[0x1A0, 0x1C0, 1]), 0);
    assert_eq!(ctx.gpu.submissions.len(), 3, "2 DCBs + 1 ACB submitted");
    assert_eq!(ctx.gpu.submissions[0].words, vec![pm4(2, IT_NOP, R_ZERO), 0]);
    assert_eq!(ctx.gpu.submissions[0].queue, GpuQueue::Graphics);
    assert_eq!(ctx.gpu.submissions[1].queue, GpuQueue::Graphics);
    assert_eq!(ctx.gpu.submissions[2].queue, GpuQueue::AsyncCompute);

    assert_eq!(hle_driver_trigger_capture(), 0);

    let registry = HleRegistry::new();
    for name in [
        "sceAgcDriverSubmitMultiDcbs",
        "sceAgcDriverAgrSubmitMultiDcbs",
        "sceAgcDriverSubmitMultiAcbs",
        "sceAgcDriverTriggerCapture",
        "sceAgcDriverGetResourceRegistrationMaxNameLength",
        "sceAgcDriverRegisterDefaultOwner",
        "sceAgcDriverGetDefaultOwner",
        "sceAgcDriverDeleteEqEvent",
        "sceAgcDriverQueryResourceRegistrationUserMemoryRequirements",
        "sceAgcDriverInitResourceRegistration",
    ] {
        assert!(registry.is_implemented("libSceAgc", name), "missing libSceAgc::{name}");
        assert!(registry.is_implemented("libSceAgcDriver", name), "missing libSceAgcDriver::{name}");
    }
    for name in [
        "sceAgcDcbJump",
        "sceAgcCbBranch",
        "sceAgcDcbDrawIndirect",
        "sceAgcSetPacketPredication",
        "sceAgcSetCxRegIndirectPatchSetNumRegisters",
        "sceAgcDcbSetMarker",
    ] {
        assert!(registry.is_implemented("libSceAgc", name), "missing libSceAgc::{name}");
    }
}

#[test]
fn a_malformed_stream_fails_and_reaches_nobody() {
    let mut ctx = ctx_env();
    let mut host = host();
    // A packet that claims more DWORDs than the stream has.
    write_words(&mut ctx, 0x900, &[pm4(9, IT_NOP, R_ZERO), 0]);
    assert!(write(&mut ctx, 0x180, &0x900u64.to_le_bytes()));
    assert!(write(&mut ctx, 0x188, &2u32.to_le_bytes()));
    assert_eq!(submit_dcb(&mut ctx, &mut host, &[0x180]), SCE_ERROR_INVALID_ARGUMENT);
    assert!(ctx.gpu.submissions.is_empty());
    assert_eq!(ctx.kernel.agc.submission_count, 0);
}

#[test]
fn driver_owner_and_eq_events() {
    let mut ctx = ctx_env();
    assert_eq!(hle_driver_register_default_owner(&mut ctx, &[42]), 0);
    assert_eq!(hle_driver_get_default_owner(&mut ctx, &[0x100]), 0);
    assert_eq!(read_u32(&ctx, 0x100), 42);
    assert_eq!(hle_driver_get_default_owner(&mut ctx, &[0]), SCE_ERROR_INVALID_ARGUMENT);
    assert!(write(&mut ctx, 0x180, b"renderer\0"));
    assert_eq!(
        hle_driver_register_owner(&mut ctx, &[0x140, 0x180]),
        0,
        "SDKs may use driver-owned tracking without a user-memory arena"
    );
    assert_eq!(hle_driver_init_resource_registration(&mut ctx, &[0x1000, 0x800, 4]), 0);
    assert_eq!(hle_driver_register_owner(&mut ctx, &[0x140, 0x180]), 0);
    let owner = read_u32(&ctx, 0x140);
    assert_ne!(owner, 0);
    assert_ne!(owner, 42, "default owner handle is reserved");
    assert_eq!(
        ctx.kernel.agc_resource_owners.get(u64::from(owner)),
        Some(&"renderer".to_owned())
    );
    assert!(write(&mut ctx, 0x1A0, b"framebuffer\0"));
    assert_eq!(
        hle_driver_register_resource(
            &mut ctx,
            &[0x160, u64::from(owner), 0x500, 0x80, 0x1A0, 3, 7]
        ),
        0
    );
    let resource = read_u32(&ctx, 0x160);
    let metadata = ctx.kernel.agc_resources.get(u64::from(resource)).expect("a resource");
    assert_eq!(metadata.owner, owner);
    assert_eq!(metadata.address, 0x500);
    assert_eq!(metadata.size, 0x80);
    assert_eq!(metadata.name, "framebuffer");
    assert_eq!(metadata.resource_type, 3);
    assert_eq!(metadata.flags, 7);
    let registry = HleRegistry::new();
    assert!(registry.is_implemented("libSceAgcDriver", "sceAgcDriverRegisterOwner"));
    assert!(registry.is_implemented("libSceAgcDriver", "sceAgcDriverRegisterResource"));
    assert!(registry.is_implemented("libSceAgcDriver", "sceAgcDriverSubmitDcb"));
    assert!(registry.is_implemented("libSceAgcDriver", "sceAgcDriverAgrSubmitDcb"));
    assert_eq!(hle_driver_add_eq_event(&mut ctx, &[0xDEAD, 5, 9]), SCE_ERROR_NOT_FOUND);
    let eq = ctx.create_equeue();
    assert_eq!(hle_driver_add_eq_event(&mut ctx, &[eq, 5, 9]), 0);
    assert!(ctx.kernel.kernel_equeue_events.get(eq, 5).is_some());
    assert_eq!(hle_driver_delete_eq_event(&mut ctx, &[eq, 5]), 0);
    assert!(ctx.kernel.kernel_equeue_events.get(eq, 5).is_none());
}

#[test]
fn names_that_are_not_well_formed_text_are_replaced() {
    let mut ctx = ctx_env();
    assert!(write(&mut ctx, 0x180, b"ab\xFFcd\0"));
    assert_eq!(hle_driver_register_owner(&mut ctx, &[0x140, 0x180]), 0);
    let owner = read_u32(&ctx, 0x140);
    assert_eq!(
        ctx.kernel.agc_resource_owners.get(u64::from(owner)),
        Some(&"ab\u{FFFD}cd".to_owned())
    );
}

#[test]
fn shader_mapped_data_owns_relocated_guest_tables() {
    let mut ctx = ctx_env();
    let header: u64 = 0x200;
    let user_data: u64 = 0x300;
    let direct: u64 = 0x400;
    let sharp0: u64 = 0x420;
    let semantics: u64 = 0x440;
    assert!(write(&mut ctx, header + SHADER_USER_DATA_OFFSET, &user_data.to_le_bytes()));
    assert!(write(&mut ctx, header + SHADER_INPUT_SEMANTICS_OFFSET, &semantics.to_le_bytes()));
    assert!(write(&mut ctx, header + SHADER_NUM_INPUT_SEMANTICS_OFFSET, &2u32.to_le_bytes()));
    assert!(write(&mut ctx, user_data, &direct.to_le_bytes()));
    assert!(write(&mut ctx, user_data + 8, &sharp0.to_le_bytes()));
    assert!(write(&mut ctx, user_data + 0x28, &3u16.to_le_bytes()));
    assert!(write(&mut ctx, user_data + 0x2A, &4u16.to_le_bytes()));
    assert!(write(&mut ctx, user_data + 0x2C, &2u16.to_le_bytes()));
    assert!(write(&mut ctx, user_data + 0x2E, &1u16.to_le_bytes()));
    assert!(write(&mut ctx, direct, &7u16.to_le_bytes()));
    assert!(write(&mut ctx, direct + 2, &0xffffu16.to_le_bytes()));
    assert!(write(&mut ctx, sharp0, &0x8123u16.to_le_bytes()));
    assert!(write(&mut ctx, semantics, &0x1234_5678u32.to_le_bytes()));
    assert!(write(&mut ctx, semantics + 4, &0x89ab_cdefu32.to_le_bytes()));

    let mapped = read_shader_mapped_data(&ctx.mem, header).expect("mapped metadata");
    let user = mapped.user_data.expect("user data");
    assert_eq!(user.direct_resource_offset, vec![7, 0xffff]);
    assert_eq!(user.eud_size_dw, 3);
    assert_eq!(user.srt_size_dw, 4);
    assert_eq!(user.sharp_resource_offset[0][0].offset(), 0x123);
    assert_eq!(user.sharp_resource_offset[0][0].size(), 1);
    assert_eq!(mapped.input_semantics[0].raw, 0x1234_5678);
    assert_eq!(mapped.input_semantics[1].raw, 0x89ab_cdef);
}

/// Answer a request for register defaults with memory from `heap` on.
fn defaults(ctx: &mut HleContext, heap: u64, state: DefaultsState) -> u64 {
    match state {
        DefaultsState::Done { address } => address,
        DefaultsState::Allocate { bytes: _, version, offset } => {
            let (address, free) = defaults_allocated(ctx, version, offset, Some(heap));
            assert_eq!(free, None);
            address
        }
    }
}

fn defaults2(ctx: &mut HleContext, heap: u64, version: u64) -> u64 {
    let state = hle_get_register_defaults2(ctx, &[version]);
    defaults(ctx, heap, state)
}

fn defaults2_internal(ctx: &mut HleContext, heap: u64, version: u64) -> u64 {
    let state = hle_get_register_defaults2_internal(ctx, &[version]);
    defaults(ctx, heap, state)
}

#[test]
fn register_defaults_materialize_in_guest_memory_with_kyty_layout() {
    let mut ctx = ctx_of(0x10000);
    let heap = 0x800;

    let base = defaults2(&mut ctx, heap, 8);
    assert_ne!(base, 0, "defaults must materialize");
    assert_eq!(defaults2(&mut ctx, heap, 8), base);
    assert_eq!(defaults2(&mut ctx, heap, 7), base);
    assert_eq!(defaults2(&mut ctx, heap, 12), base);
    let internal = defaults2_internal(&mut ctx, heap, 8);
    assert_eq!(internal, base + REG_DEFAULTS_HEADER_BYTES);

    assert_eq!(REG_DEFAULTS_COUNT_OFFSET, 0x38);
    assert_eq!(read_u32(&ctx, base + 0x38), 78 + 29 + 20, "set-1 triples");
    assert_eq!(read_u32(&ctx, internal + 0x38), 4 + 15 + 3, "set-2 triples");

    let tbl0 = read_u64(&ctx, base);
    assert_ne!(tbl0, 0);
    assert_ne!(read_u64(&ctx, base + 8), 0);
    assert_ne!(read_u64(&ctx, base + 0x10), 0);
    assert_eq!(read_u64(&ctx, base + 0x18), 0);
    assert_eq!(read_u32(&ctx, base + 0x20), CX_REG_INFO1.len() as u32);
    assert_eq!(read_u32(&ctx, base + 0x24), SH_REG_INFO1.len() as u32);
    assert_eq!(read_u32(&ctx, base + 0x28), UC_REG_INFO1.len() as u32);
    assert_eq!(read_u32(&ctx, base + 0x2c), 0);
    let types = read_u64(&ctx, base + 0x30);
    assert_ne!(types, 0);

    let first_cx = read_u64(&ctx, tbl0);
    assert_ne!(first_cx, 0);
    assert_eq!(read_u32(&ctx, first_cx), 0x202, "CB_COLOR_CONTROL offset");
    assert_eq!(read_u32(&ctx, first_cx + 4), 0x00cc_0010);
    assert_eq!(read_u32(&ctx, first_cx - 4), 0xE24F_806D, "type hash");

    assert_eq!(read_u32(&ctx, types), 0xE24F_806D);
    assert_eq!(read_u32(&ctx, types + 4), 0);
    assert_eq!(read_u32(&ctx, types + 8), 0);
    assert_eq!(read_u32(&ctx, types + 12), 0xF6C2_8182, "cx entry 1");
    assert_eq!(read_u32(&ctx, types + 16), 4, "id 1*4 + table 0");
    assert_eq!(read_u32(&ctx, types + 78 * 12 + 4), 1);

    let first_cx2 = read_u64(&ctx, read_u64(&ctx, internal));
    assert_eq!(read_u32(&ctx, first_cx2), 0x0E, "DB_DFSM_CONTROL offset");
    assert_eq!(read_u32(&ctx, first_cx2 - 4), 0x8FB4_EDB5, "type hash");
}

/// The compact sets are data that the embedder hands over.
fn compact(registers: Vec<Vec<(u32, u32)>>, types: Vec<u32>) -> CompactRegisterDefaults {
    let pointer_offsets = registers.iter().map(|t| (0..t.len() as u32).collect()).collect();
    CompactRegisterDefaults { registers, pointer_offsets, types }
}

#[test]
fn register_defaults_version_12_uses_exact_kytyps5_v10_compact_tables() {
    let mut ctx = ctx_of(0x10000);
    let heap = 0x800;
    let public_tables = vec![
        vec![(0x202, 0x00CC_0010), (0x203, 7)],
        vec![(0x0C, 1)],
        vec![(0x242, 4), (0x243, 5), (0x244, 6)],
        vec![],
    ];
    let types: Vec<u32> = (0..128u32 * 3).map(|i| i * 5 + 1).collect();
    ctx.defaults_public = compact(public_tables.clone(), types.clone());
    ctx.defaults_internal =
        compact(vec![vec![(0x0E, 0)], vec![], vec![], vec![(0x30, 9)]], vec![0; 28 * 3]);

    let public = defaults2(&mut ctx, heap, 12);
    let internal = defaults2_internal(&mut ctx, heap, 12);
    assert_ne!(public, 0);
    assert_eq!(internal, public + REG_DEFAULTS_HEADER_BYTES);

    for (table, expected) in public_tables.iter().enumerate() {
        assert_eq!(
            read_u32(&ctx, public + 0x20 + table as u64 * 4),
            expected.len() as u32,
            "public table {table} register count"
        );
    }
    assert_eq!(read_u32(&ctx, public + 0x38), 128);
    assert_eq!(read_u32(&ctx, internal + 0x38), 28);
    assert_eq!(read_u64(&ctx, public + 0x18), 0, "public tbl3 is empty");
    assert_ne!(read_u64(&ctx, internal + 0x18), 0, "internal tbl3 must be exposed");

    let public_tbl0_first = read_u64(&ctx, read_u64(&ctx, public));
    assert_eq!(read_u32(&ctx, public_tbl0_first), public_tables[0][0].0);
    assert_eq!(read_u32(&ctx, public_tbl0_first + 4), public_tables[0][0].1);
    let public_types = read_u64(&ctx, public + 0x30);
    assert_eq!(read_u32(&ctx, public_types), types[0]);
    assert_eq!(read_u32(&ctx, public_types + 4), types[1]);
    assert_eq!(read_u32(&ctx, public_types + 8), types[2]);
}

#[test]
fn defaults_that_cannot_be_placed_are_null() {
    let mut ctx = ctx_of(0x100);
    match hle_get_register_defaults2(&ctx, &[8]) {
        DefaultsState::Allocate { bytes, version, offset } => {
            assert!(bytes > 0x100);
            assert_eq!(defaults_allocated(&mut ctx, version, offset, None), (0, None));
            // Memory that turns out not to be writable is handed back.
            assert_eq!(
                defaults_allocated(&mut ctx, version, offset, Some(0x80)),
                (0, Some(0x80))
            );
        }
        DefaultsState::Done { .. } => panic!("nothing was placed yet"),
    }
    assert_eq!(ctx.kernel.agc.register_defaults_addr, 0);
}

#[test]
fn awaited_addresses_concatenate_behind_whole_packets() {
    let wait = |address: u32| vec![pm4(6, IT_NOP, R_WAIT_MEM32), address, 1, 0, 0, 0];
    // A wait, a filler, another packet, and a wait on nothing.
    let mut packets = wait(0x40);
    packets.push(0x8000_0000);
    packets.extend([pm4(2, IT_NOP, R_ZERO), 7]);
    packets.extend([pm4(6, IT_NOP, R_WAIT_MEM32), 0, 0, 0, 0, 0]);
    assert_eq!(collect_acb_wait_addresses(&packets), vec![0x1_0000_0040]);
    let more = wait(0x80);
    let both = [packets.clone(), more.clone()].concat();
    assert_eq!(collect_acb_wait_addresses(&both), vec![0x1_0000_0040, 0x1_0000_0080]);
    // No header, or a packet that is cut short, adds nothing.
    for tail in [vec![7, 7], more[..5].to_vec()] {
        let cut = [packets.clone(), tail].concat();
        assert_eq!(collect_acb_wait_addresses(&cut), vec![0x1_0000_0040]);
    }
}
