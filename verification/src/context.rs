//! The state that exports act on.
//!
//! [`HleContext`] is the executable state; [`Machine`] is its mathematical
//! view. Every export is specified as a function from a machine and the call's
//! arguments to the next machine and the returned value.
use vstd::prelude::*;
use crate::events::{EventTable, Events};
use crate::mem::{GuestMemory, Mem};
use crate::rows::{no_rows, rows, rows_new, Row};
use crate::table::Table;
use dashmap::DashMap;

verus! {

/// "OK".
pub const OK: u64 = 0;

pub const SCE_ERROR_PERMISSION_DENIED: u64 = 0x8002_0001;

/// The "not found" of file access.
pub const SCE_ERROR_NO_ENTRY: u64 = 0x8002_0002;

/// The "not found" of handles.
pub const SCE_ERROR_NOT_FOUND: u64 = 0x8002_0003;

pub const SCE_ERROR_MEMORY_FAULT: u64 = 0x8002_000E;

pub const SCE_ERROR_INVALID_ARGUMENT: u64 = 0x8002_0016;

/// Argument `i` of a call; arguments that were not passed read as zero.
pub open spec fn arg(a: Seq<u64>, i: int) -> u64 {
    if 0 <= i < a.len() {
        a[i]
    } else {
        0
    }
}

/// Argument `i` of a call.
pub fn get_arg(args: &[u64], i: usize) -> (r: u64)
    ensures
        r == arg(args@, i as int),
{
    if i < args.len() {
        args[i]
    } else {
        0
    }
}

/// The graphics commands built since the last graphics submission: `[start,
/// end)`, inside a window that ends at `range_end`.
#[derive(Clone, Copy)]
pub struct AgcPendingGraphicsSegment {
    pub start: u64,
    pub end: u64,
    pub range_end: u64,
}

/// The graphics driver's counters and settings.
#[derive(Clone, Copy)]
pub struct AgcState {
    pub default_owner: u32,
    pub next_owner: u32,
    pub next_resource: u32,
    pub max_owners: u32,
    pub registration_initialized: bool,
    pub segment: AgcPendingGraphicsSegment,
    pub last_dcb_address: u64,
    pub last_dcb_dwords: u32,
    pub submission_count: u64,
    pub draw_packet_count: u64,
    pub dispatch_packet_count: u64,
    pub flip_packet_count: u64,
    pub gpu_timestamp: u64,
    pub register_defaults_addr: u64,
}

/// A registered graphics resource.
pub struct AgcResource {
    pub owner: u32,
    pub address: u64,
    pub size: u64,
    pub name: String,
    pub resource_type: u32,
    pub flags: u32,
}

/// The view of a registered resource.
pub struct Resource {
    pub owner: u32,
    pub address: u64,
    pub size: u64,
    pub name: Seq<char>,
    pub resource_type: u32,
    pub flags: u32,
}

impl View for AgcResource {
    type V = Resource;

    open spec fn view(&self) -> Resource {
        Resource {
            owner: self.owner,
            address: self.address,
            size: self.size,
            name: self.name@,
            resource_type: self.resource_type,
            flags: self.flags,
        }
    }
}

/// Where the next gather or scatter read of a command buffer goes on.
#[derive(Clone, Copy)]
pub struct AmprGatherScatterState {
    pub file_id: u32,
    pub next_destination: u64,
    pub next_file_offset: u64,
}

/// Counters and toggles of the small libraries.
#[derive(Clone, Copy)]
pub struct SmallState {
    pub coredump_handler: u64,
    pub coredump_handler_context: u64,
    pub fiber_context_size_check: u32,
    pub http_next_context: u32,
    pub http_next_template: u32,
    pub http2_next_context: u32,
    pub http2_next_template: u32,
    pub content_export_initialized: bool,
    pub error_dialog_status: u32,
    pub vr_setup_status: u32,
    pub ime_status: u32,
    pub ime_end_status: u32,
}

/// The kernel-side state of one guest process.
pub struct OrbisKernel {
    pub agc: AgcState,
    pub agc_resource_owners: Table<String>,
    pub agc_resources: Table<AgcResource>,
    pub kernel_equeues: Table<u64>,
    pub next_equeue: u64,
    pub kernel_equeue_events: EventTable,
    pub ampr_write_offsets: Table<u64>,
    pub ampr_command_counts: Table<u64>,
    pub ampr_gather_scatter: Table<AmprGatherScatterState>,
    pub ampr_type_flags: Table<u32>,
    pub appr_files: Table<u64>,
    pub appr_missing_warned: Table<u64>,
    pub fibers: Table<u64>,
    pub http_contexts: Table<u64>,
    pub http_templates: Table<u64>,
    pub http2_contexts: Table<u64>,
    pub http2_templates: Table<u64>,
    pub small: SmallState,
}

/// The stack window of the calling guest thread; empty when it is unknown.
#[derive(Clone, Copy)]
pub struct StackFrame {
    pub low: u64,
    pub high: u64,
}

/// Which hardware queue a submission goes to.
#[derive(Clone, Copy, PartialEq, Eq, Structural, Debug)]
pub enum GpuQueue {
    Graphics,
    AsyncCompute,
}

/// A command stream handed to the GPU.
pub struct GpuSubmission {
    pub words: Vec<u32>,
    pub queue: GpuQueue,
}

/// A resource slot of a shader: 15 bits of offset and one size bit.
#[derive(Clone, Copy)]
pub struct ShaderSharp {
    pub raw: u16,
}

impl ShaderSharp {
    /// The slot's offset.
    pub fn offset(&self) -> (r: u16)
        ensures
            r == self.raw & 0x7FFF,
    {
        self.raw & 0x7FFF
    }

    /// The slot's size bit.
    pub fn size(&self) -> (r: u16)
        ensures
            r == self.raw >> 15,
    {
        self.raw >> 15
    }
}

/// The user-data tables of a shader.
pub struct ShaderUserData {
    pub direct_resource_offset: Vec<u16>,
    pub sharp_resource_offset: Vec<Vec<ShaderSharp>>,
    pub eud_size_dw: u16,
    pub srt_size_dw: u16,
}

/// One input semantic of a shader.
#[derive(Clone, Copy)]
pub struct ShaderSemantic {
    pub raw: u32,
}

/// A shader's metadata, copied out of guest memory.
pub struct ShaderMappedData {
    pub user_data: Option<ShaderUserData>,
    pub input_semantics: Vec<ShaderSemantic>,
}

/// The view of a shader's user-data tables.
pub struct UserData {
    pub direct: Seq<u16>,
    pub sharps: Seq<Seq<ShaderSharp>>,
    pub eud_size_dw: u16,
    pub srt_size_dw: u16,
}

/// The view of a shader's metadata.
pub struct Mapped {
    pub user_data: Option<UserData>,
    pub semantics: Seq<ShaderSemantic>,
}

impl View for ShaderUserData {
    type V = UserData;

    open spec fn view(&self) -> UserData {
        UserData {
            direct: self.direct_resource_offset@,
            sharps: self.sharp_resource_offset@.map_values(|v: Vec<ShaderSharp>| v@),
            eud_size_dw: self.eud_size_dw,
            srt_size_dw: self.srt_size_dw,
        }
    }
}

impl View for ShaderMappedData {
    type V = Mapped;

    open spec fn view(&self) -> Mapped {
        Mapped {
            user_data: match self.user_data {
                Some(u) => Some(u@),
                None => None,
            },
            semantics: self.input_semantics@,
        }
    }
}

/// A flip of a display buffer.
#[derive(Clone, Copy, PartialEq, Eq, Structural, Debug)]
pub struct Flip {
    pub video_out_handle: u32,
    pub display_buffer_index: u32,
    pub flip_mode: u32,
    pub flip_arg: u64,
}

/// What the libraries have handed to the GPU and to video output.
pub struct Gpu {
    pub submissions: Vec<GpuSubmission>,
    pub mapped: Vec<(u64, ShaderMappedData)>,
    pub waits: u64,
    pub flips: Vec<Flip>,
}

/// The view of [`Gpu`].
pub struct GpuLog {
    pub submissions: Seq<(Seq<u32>, GpuQueue)>,
    pub mapped: Seq<(u64, Mapped)>,
    pub waits: u64,
    pub flips: Seq<Flip>,
}

impl View for Gpu {
    type V = GpuLog;

    open spec fn view(&self) -> GpuLog {
        GpuLog {
            submissions: self.submissions@.map_values(|s: GpuSubmission| (s.words@, s.queue)),
            mapped: self.mapped@.map_values(|p: (u64, ShaderMappedData)| (p.0, p.1@)),
            waits: self.waits,
            flips: self.flips@,
        }
    }
}

/// An open capture port: the samples that one call captures, how long that
/// takes in nanoseconds, and the channels of a sample.
#[derive(Clone, Copy)]
pub struct InPort {
    pub grain: u32,
    pub period_ns: u64,
    pub channels: u32,
}

/// The state of audio output: handle counters, contexts and ports.
pub struct AudioOut2 {
    pub next_context_handle: u64,
    pub next_user_handle: u64,
    pub next_port_id: u32,
    pub(crate) contexts: DashMap<u64, Row>,
    pub(crate) ports: DashMap<u64, Row>,
}

/// The view of [`AudioOut2`].
pub struct AudioOut {
    pub next_context_handle: u64,
    pub next_user_handle: u64,
    pub next_port_id: u32,
    pub contexts: Map<u64, Row>,
    pub ports: Map<u64, Row>,
}

impl View for AudioOut2 {
    type V = AudioOut;

    open(crate) spec fn view(&self) -> AudioOut {
        AudioOut {
            next_context_handle: self.next_context_handle,
            next_user_handle: self.next_user_handle,
            next_port_id: self.next_port_id,
            contexts: rows(self.contexts),
            ports: rows(self.ports),
        }
    }
}

/// A register-default set in compact form: up to four register tables with
/// pointers into them, and type triples.
pub struct CompactRegisterDefaults {
    pub registers: Vec<Vec<(u32, u32)>>,
    pub pointer_offsets: Vec<Vec<u32>>,
    pub types: Vec<u32>,
}

/// The view of [`CompactRegisterDefaults`].
pub struct CompactSet {
    pub registers: Seq<Seq<(u32, u32)>>,
    pub pointers: Seq<Seq<u32>>,
    pub types: Seq<u32>,
}

impl View for CompactRegisterDefaults {
    type V = CompactSet;

    open spec fn view(&self) -> CompactSet {
        CompactSet {
            registers: self.registers@.map_values(|v: Vec<(u32, u32)>| v@),
            pointers: self.pointer_offsets@.map_values(|v: Vec<u32>| v@),
            types: self.types@,
        }
    }
}

/// Everything an export can see and change.
pub struct HleContext {
    pub mem: GuestMemory,
    pub kernel: OrbisKernel,
    pub gpu: Gpu,
    pub frame: StackFrame,
    pub audio_in: Table<InPort>,
    pub audio_out2: AudioOut2,
    pub defaults_public: CompactRegisterDefaults,
    pub defaults_internal: CompactRegisterDefaults,
}

/// The view of the command-buffer bookkeeping of asynchronous file reads.
pub struct Ampr {
    pub offsets: Map<u64, u64>,
    pub counts: Map<u64, u64>,
    pub streams: Map<u64, AmprGatherScatterState>,
    pub flags: Map<u64, u32>,
    pub files: Map<u64, u64>,
    pub missing: Map<u64, u64>,
}

/// The view of the HTTP tables.
pub struct Http {
    pub contexts: Map<u64, u64>,
    pub templates: Map<u64, u64>,
    pub contexts2: Map<u64, u64>,
    pub templates2: Map<u64, u64>,
}

/// The mathematical view of [`HleContext`].
pub struct Machine {
    pub mem: Mem,
    pub agc: AgcState,
    pub owners: Map<u64, Seq<char>>,
    pub resources: Map<u64, Resource>,
    pub equeues: Map<u64, u64>,
    pub next_equeue: u64,
    pub events: Events,
    pub ampr: Ampr,
    pub fibers: Map<u64, u64>,
    pub http: Http,
    pub small: SmallState,
    pub gpu: GpuLog,
    pub frame: StackFrame,
    pub audio_in: Map<u64, InPort>,
    pub audio_out2: AudioOut,
    pub defaults: (CompactSet, CompactSet),
}

impl View for HleContext {
    type V = Machine;

    open spec fn view(&self) -> Machine {
        Machine {
            mem: self.mem@,
            agc: self.kernel.agc,
            owners: self.kernel.agc_resource_owners@.map_values(|s: String| s@),
            resources: self.kernel.agc_resources@.map_values(|r: AgcResource| r@),
            equeues: self.kernel.kernel_equeues@,
            next_equeue: self.kernel.next_equeue,
            events: self.kernel.kernel_equeue_events@,
            ampr: Ampr {
                offsets: self.kernel.ampr_write_offsets@,
                counts: self.kernel.ampr_command_counts@,
                streams: self.kernel.ampr_gather_scatter@,
                flags: self.kernel.ampr_type_flags@,
                files: self.kernel.appr_files@,
                missing: self.kernel.appr_missing_warned@,
            },
            fibers: self.kernel.fibers@,
            http: Http {
                contexts: self.kernel.http_contexts@,
                templates: self.kernel.http_templates@,
                contexts2: self.kernel.http2_contexts@,
                templates2: self.kernel.http2_templates@,
            },
            small: self.kernel.small,
            gpu: self.gpu@,
            frame: self.frame,
            audio_in: self.audio_in@,
            audio_out2: self.audio_out2@,
            defaults: (self.defaults_public@, self.defaults_internal@),
        }
    }
}

impl Machine {
    /// The machine with another memory.
    pub open spec fn with_mem(self, mem: Mem) -> Machine {
        Machine { mem, ..self }
    }

    /// The machine after an all-or-nothing 32-bit write, and whether it happened.
    pub open spec fn put_u32(self, a: int, v: u32) -> (Machine, bool) {
        let (mem, ok) = crate::mem::put_u32(self.mem, a, v);
        (self.with_mem(mem), ok)
    }

    /// The machine after an all-or-nothing 64-bit write, and whether it happened.
    pub open spec fn put_u64(self, a: int, v: u64) -> (Machine, bool) {
        let (mem, ok) = crate::mem::put_u64(self.mem, a, v);
        (self.with_mem(mem), ok)
    }

    /// The machine after an all-or-nothing write, and whether it happened.
    pub open spec fn put(self, a: int, b: Seq<u8>) -> (Machine, bool) {
        let (mem, ok) = crate::mem::put(self.mem, a, b);
        (self.with_mem(mem), ok)
    }
}

/// `code` on success, `fault` when a write did not happen.
pub open spec fn checked(p: (Machine, bool), code: u64, fault: u64) -> (Machine, u64) {
    (p.0, if p.1 {
        code
    } else {
        fault
    })
}

impl HleContext {
    /// A process that has just started: the given memory, nothing registered.
    pub fn new(mem: GuestMemory) -> (r: HleContext)
        ensures
            r.mem == mem,
            r@ == initial_machine(mem@),
    {
        let r = HleContext {
            mem,
            kernel: OrbisKernel {
                agc: AgcState {
                    default_owner: 1,
                    next_owner: 1,
                    next_resource: 1,
                    max_owners: 0,
                    registration_initialized: false,
                    segment: AgcPendingGraphicsSegment { start: 0, end: 0, range_end: 0 },
                    last_dcb_address: 0,
                    last_dcb_dwords: 0,
                    submission_count: 0,
                    draw_packet_count: 0,
                    dispatch_packet_count: 0,
                    flip_packet_count: 0,
                    gpu_timestamp: 0,
                    register_defaults_addr: 0,
                },
                agc_resource_owners: Table::new(),
                agc_resources: Table::new(),
                kernel_equeues: Table::new(),
                next_equeue: 1,
                kernel_equeue_events: EventTable::new(),
                ampr_write_offsets: Table::new(),
                ampr_command_counts: Table::new(),
                ampr_gather_scatter: Table::new(),
                ampr_type_flags: Table::new(),
                appr_files: Table::new(),
                appr_missing_warned: Table::new(),
                fibers: Table::new(),
                http_contexts: Table::new(),
                http_templates: Table::new(),
                http2_contexts: Table::new(),
                http2_templates: Table::new(),
                small: SmallState {
                    coredump_handler: 0,
                    coredump_handler_context: 0,
                    fiber_context_size_check: 0,
                    http_next_context: 0,
                    http_next_template: 0x1000,
                    http2_next_context: 0,
                    http2_next_template: 0x1000,
                    content_export_initialized: false,
                    error_dialog_status: 0,
                    vr_setup_status: 0,
                    ime_status: 0,
                    ime_end_status: 1,
                },
            },
            gpu: Gpu {
                submissions: Vec::new(),
                mapped: Vec::new(),
                waits: 0,
                flips: Vec::new(),
            },
            frame: StackFrame { low: 0, high: 0 },
            audio_in: Table::new(),
            audio_out2: AudioOut2 {
                next_context_handle: 1,
                next_user_handle: 1,
                next_port_id: 0,
                contexts: rows_new(),
                ports: rows_new(),
            },
            defaults_public: CompactRegisterDefaults {
                registers: Vec::new(),
                pointer_offsets: Vec::new(),
                types: Vec::new(),
            },
            defaults_internal: CompactRegisterDefaults {
                registers: Vec::new(),
                pointer_offsets: Vec::new(),
                types: Vec::new(),
            },
        };
        proof {
            let initial = initial_machine(mem@);
            assert(r@.owners =~= initial.owners);
            assert(r@.resources =~= initial.resources);
            assert(r@.gpu.submissions =~= initial.gpu.submissions);
            assert(r@.gpu.mapped =~= initial.gpu.mapped);
            assert(r@.gpu.flips =~= initial.gpu.flips);
            assert(r@.defaults.0.registers =~= no_defaults().registers);
            assert(r@.defaults.0.pointers =~= no_defaults().pointers);
            assert(r@.defaults.0.types =~= no_defaults().types);
            assert(r@.defaults.1.registers =~= no_defaults().registers);
            assert(r@.defaults.1.pointers =~= no_defaults().pointers);
            assert(r@.defaults.1.types =~= no_defaults().types);
        }
        r
    }

    /// Create an event queue and return its handle.
    pub fn create_equeue(&mut self) -> (r: u64)
        ensures
            r == old(self)@.next_equeue,
            final(self)@ == (Machine {
                equeues: old(self)@.equeues.insert(r, 0),
                next_equeue: r.wrapping_add(1),
                ..old(self)@
            }),
    {
        let handle: u64 = self.kernel.next_equeue;
        self.kernel.next_equeue = handle.wrapping_add(1);
        self.kernel.kernel_equeues.insert(handle, 0);
        handle
    }
}

/// The graphics driver of a fresh process.
pub open spec fn initial_agc() -> AgcState {
    AgcState {
        default_owner: 1,
        next_owner: 1,
        next_resource: 1,
        max_owners: 0,
        registration_initialized: false,
        segment: AgcPendingGraphicsSegment { start: 0, end: 0, range_end: 0 },
        last_dcb_address: 0,
        last_dcb_dwords: 0,
        submission_count: 0,
        draw_packet_count: 0,
        dispatch_packet_count: 0,
        flip_packet_count: 0,
        gpu_timestamp: 0,
        register_defaults_addr: 0,
    }
}

/// A compact set without registers.
pub open spec fn no_defaults() -> CompactSet {
    CompactSet { registers: Seq::empty(), pointers: Seq::empty(), types: Seq::empty() }
}

/// A process that has just started with the given memory.
pub open spec fn initial_machine(mem: Mem) -> Machine {
    Machine {
        mem,
        agc: initial_agc(),
        owners: Map::empty(),
        resources: Map::empty(),
        equeues: Map::empty(),
        next_equeue: 1,
        events: Map::empty(),
        ampr: Ampr {
            offsets: Map::empty(),
            counts: Map::empty(),
            streams: Map::empty(),
            flags: Map::empty(),
            files: Map::empty(),
            missing: Map::empty(),
        },
        fibers: Map::empty(),
        http: Http {
            contexts: Map::empty(),
            templates: Map::empty(),
            contexts2: Map::empty(),
            templates2: Map::empty(),
        },
        small: initial_small(),
        gpu: GpuLog {
            submissions: Seq::empty(),
            mapped: Seq::empty(),
            waits: 0,
            flips: Seq::empty(),
        },
        frame: StackFrame { low: 0, high: 0 },
        audio_in: Map::empty(),
        audio_out2: AudioOut {
            next_context_handle: 1,
            next_user_handle: 1,
            next_port_id: 0,
            contexts: no_rows(),
            ports: no_rows(),
        },
        defaults: (no_defaults(), no_defaults()),
    }
}

/// The small libraries of a fresh process.
pub open spec fn initial_small() -> SmallState {
    SmallState {
        coredump_handler: 0,
        coredump_handler_context: 0,
        fiber_context_size_check: 0,
        http_next_context: 0,
        http_next_template: 0x1000,
        http2_next_context: 0,
        http2_next_template: 0x1000,
        content_export_initialized: false,
        error_dialog_status: 0,
        vr_setup_status: 0,
        ime_status: 0,
        ime_end_status: 1,
    }
}

} // verus!
