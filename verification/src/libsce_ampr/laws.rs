//! What holds of command buffers over many calls: sizes that are measured, and
//! the map window.
use vstd::prelude::*;
use crate::context::{arg, Machine, OK, SCE_ERROR_PERMISSION_DENIED};
use crate::libsce_ampr::{
    advanced, append, append_skip, apr_map_end, chunk_step, effect, equeue_record,
    finish_read, flags_of, law_read_is_recorded, law_record_advances, lemma_skip_advances,
    next_chunk, open_step, skip_record, start_read, value_or_zero, wanted, write_address, write_cb,
    APR_TYPE_MAP_ACTIVE, AmprExport, HostError, MAP_BEGIN_RECORD_SIZE, MAP_DIRECT_BEGIN_RECORD_SIZE,
    MAP_END_RECORD_SIZE, READ_FILE_RECORD_SIZE, RESET_GATHER_SCATTER_RECORD_SIZE, ReadJob,
    ReadState,
};
use crate::mem::{bytes_of, put};
use crate::registry::{answers, Handler, Key, Registry, Reply};

verus! {

/// What a host answers to a read.
pub enum Answer {
    Length(Result<u64, HostError>),
    Data(Result<Seq<u8>, HostError>),
}

/// A read after one answer of the host.
pub open spec fn after_answer(m: Machine, s: ReadState, answer: Answer) -> (Machine, ReadState) {
    match answer {
        Answer::Length(length) => open_step(m, s, length),
        Answer::Data(data) => chunk_step(m, s, data),
    }
}

/// A read after all of `answers`.
pub open spec fn after_answers(m: Machine, s: ReadState, answers: Seq<Answer>) -> (
    Machine,
    ReadState,
)
    decreases answers.len(),
{
    if answers.len() == 0 {
        (m, s)
    } else {
        let (m1, s1) = after_answers(m, s, answers.drop_last());
        after_answer(m1, s1, answers.last())
    }
}

/// The measuring export and its arguments for a call that appends a record.
pub open spec fn measure(writer: AmprExport, a: Seq<u64>) -> Option<(AmprExport, Seq<u64>)> {
    match writer {
        AmprExport::Nop => Some((AmprExport::MeasureNop, seq![arg(a, 1)])),
        AmprExport::NopWithData => Some((AmprExport::MeasureNopWithData, seq![arg(a, 1)])),
        AmprExport::Marker => Some((AmprExport::MeasureMarker, seq![arg(a, 1)])),
        AmprExport::MarkerWithColor => Some((AmprExport::MeasureMarkerWithColor, seq![arg(a, 1)])),
        AmprExport::PopMarker => Some((AmprExport::PopMarkerRecordSize, seq![])),
        AmprExport::WaitOrCounterNop => Some((AmprExport::WaitRecordSize, seq![])),
        AmprExport::WriteAddressRecord => Some((AmprExport::WriteAddressRecordSize, seq![])),
        AmprExport::WriteAddress0400 => Some((AmprExport::WriteAddressRecordSize, seq![])),
        AmprExport::WriteAddressFromSource => Some((AmprExport::WriteAddressRecordSize, seq![])),
        AmprExport::WriteEqueueRecord => Some((AmprExport::KernelEventQueueRecordSize, seq![])),
        AmprExport::AprResetGatherScatterState => Some(
            (AmprExport::ResetGatherScatterRecordSize, seq![]),
        ),
        AmprExport::AprMapBegin => Some((AmprExport::MeasureMapBegin, seq![arg(a, 1), arg(a, 2)])),
        AmprExport::AprMapDirectBegin => Some(
            (AmprExport::MeasureMapDirectBegin, seq![arg(a, 1), arg(a, 2), arg(a, 3)]),
        ),
        AmprExport::AprMapEnd => Some((AmprExport::MapEndRecordSize, seq![])),
        AmprExport::AprReadFile => Some((AmprExport::ReadFileRecordSize, seq![])),
        AmprExport::AprReadFileGather => Some(
            (AmprExport::MeasureReadFileGather, seq![arg(a, 3), arg(a, 4)]),
        ),
        AmprExport::AprReadFileScatter => Some(
            (AmprExport::MeasureReadFileScatter, seq![arg(a, 3), arg(a, 4)]),
        ),
        AmprExport::AprReadFileGatherScatter => Some(
            (AmprExport::MeasureReadFileGatherScatter, seq![arg(a, 3), arg(a, 4), arg(a, 5)]),
        ),
        _ => None,
    }
}

/// The job that a read is at; a finished read has none.
pub open spec fn job_of(s: ReadState) -> Option<ReadJob> {
    match s {
        ReadState::Open { job } => Some(job),
        ReadState::Chunk { job, .. } => Some(job),
        ReadState::Done { .. } => None,
    }
}

/// The cursor of `cb`.
pub open spec fn cursor(m: Machine, cb: u64) -> u64 {
    value_or_zero(m.ampr.offsets, cb)
}

/// A read of `cb` that started at cursor `at`: it has not moved the cursor yet,
/// or it ended well and took one record, or it ended with an error.
pub open spec fn read_at(m: Machine, s: ReadState, cb: u64, at: u64) -> bool {
    match s {
        ReadState::Done { code } => code == OK ==> cursor(m, cb) == at + READ_FILE_RECORD_SIZE,
        _ => (job_of(s)->0).cb == cb && cursor(m, cb) == at,
    }
}

proof fn lemma_finish(m: Machine, job: ReadJob, bytes_read: u64)
    ensures
        ({
            let (after, s) = finish_read(m, job, bytes_read);
            read_at(after, s, job.cb, cursor(m, job.cb))
        }),
{
    if finish_read(m, job, bytes_read).1 == (ReadState::Done { code: OK }) {
        law_read_is_recorded(m, job, bytes_read);
    }
}

proof fn lemma_start(m: Machine, job: ReadJob)
    ensures
        read_at(start_read(m, job).0, start_read(m, job).1, job.cb, cursor(m, job.cb)),
{
    lemma_finish(m, job, 0);
}

proof fn lemma_next_chunk(m: Machine, job: ReadJob, done: u64)
    ensures
        read_at(
            next_chunk(m, job, done).0,
            next_chunk(m, job, done).1,
            job.cb,
            cursor(m, job.cb),
        ),
{
    lemma_finish(m, job, done);
}

proof fn lemma_answer(m: Machine, s: ReadState, answer: Answer, cb: u64, at: u64)
    requires
        read_at(m, s, cb, at),
    ensures
        read_at(after_answer(m, s, answer).0, after_answer(m, s, answer).1, cb, at),
{
    match (s, answer) {
        (ReadState::Open { job }, Answer::Length(Ok(n))) => {
            lemma_finish(m, job, 0);
            lemma_next_chunk(m, job, 0);
        },
        (ReadState::Chunk { job, done, offset, want }, Answer::Data(Ok(bytes))) => {
            let b = wanted(bytes, want);
            let mem = put(m.mem, job.destination + done, b).0;
            lemma_finish(m, job, done);
            lemma_next_chunk(m.with_mem(mem), job, (done + b.len()) as u64);
        },
        _ => {},
    }
}

proof fn lemma_answers(m: Machine, s: ReadState, answers: Seq<Answer>, cb: u64, at: u64)
    requires
        read_at(m, s, cb, at),
    ensures
        read_at(after_answers(m, s, answers).0, after_answers(m, s, answers).1, cb, at),
    decreases answers.len(),
{
    if answers.len() > 0 {
        lemma_answers(m, s, answers.drop_last(), cb, at);
        let (m1, s1) = after_answers(m, s, answers.drop_last());
        lemma_answer(m1, s1, answers.last(), cb, at);
    }
}

/// What a writer's call comes to, once the host has given `answers` to a read:
/// the machine, and whether the call ended well.
pub open spec fn settled(m: Machine, reply: Reply, answers: Seq<Answer>) -> (Machine, bool) {
    match reply {
        Reply::Return(code) => (m, code == OK),
        Reply::Read(s) => {
            let (after, end) = after_answers(m, s, answers);
            (after, end == (ReadState::Done { code: OK }))
        },
        _ => (m, false),
    }
}

proof fn lemma_read_takes(m: Machine, writer: AmprExport, a: Seq<u64>, answers: Seq<Answer>)
    requires
        effect(writer, m, a).1 is Read,
    ensures
        ({
            let (m1, reply) = effect(writer, m, a);
            let (after, ok) = settled(m1, reply, answers);
            ok ==> cursor(after, arg(a, 0)) == cursor(m, arg(a, 0)) + READ_FILE_RECORD_SIZE
        }),
{
    let cb = arg(a, 0);
    let at = cursor(m, cb);
    assert forall|job: ReadJob| job.cb == cb implies read_at(
        (#[trigger] start_read(m, job)).0,
        start_read(m, job).1,
        cb,
        at,
    ) by {
        lemma_start(m, job);
    }
    let (m1, reply) = effect(writer, m, a);
    if let Reply::Read(s) = reply {
        assert(read_at(m1, s, cb, at));
        lemma_answers(m1, s, answers, cb, at);
    }
}

proof fn lemma_ended_stays(m: Machine, s: ReadState, answers: Seq<Answer>)
    ensures
        s is Done ==> after_answers(m, s, answers) == (m, s),
    decreases answers.len(),
{
    if answers.len() > 0 {
        lemma_ended_stays(m, s, answers.drop_last());
    }
}

/// What a measure answers to the arguments of a call that appends at once: the
/// machine stays as it is, and if the call ends well, its cursor moves by the
/// answer.
spec fn measured(m: Machine, writer: AmprExport, a: Seq<u64>) -> bool {
    let (e, b) = measure(writer, a)->0;
    let cb = arg(a, 0);
    let (after, reply) = effect(writer, m, a);
    &&& effect(e, m, b).0 == m
    &&& reply is Return
    &&& reply == Reply::Return(OK) ==> {
        &&& cursor(after, cb) >= cursor(m, cb)
        &&& effect(e, m, b).1 == Reply::Return((cursor(after, cb) - cursor(m, cb)) as u64)
    }
}

proof fn lemma_skips_advance(m: Machine, cb: u64)
    ensures
        forall|total: u64, payload: Seq<u8>|
            advanced(m, #[trigger] append_skip(m, cb, total, payload), cb, total as int),
{
    assert forall|total: u64, payload: Seq<u8>| advanced(
        m,
        #[trigger] append_skip(m, cb, total, payload),
        cb,
        total as int,
    ) by {
        lemma_skip_advances(m, cb, total, payload);
    }
}

proof fn lemma_nop_measure(m: Machine, writer: AmprExport, a: Seq<u64>)
    requires
        writer is Nop || writer is NopWithData,
    ensures
        measured(m, writer, a),
{
    lemma_skips_advance(m, arg(a, 0));
}

proof fn lemma_marker_measure(m: Machine, writer: AmprExport, a: Seq<u64>)
    requires
        writer is Marker || writer is MarkerWithColor,
    ensures
        measured(m, writer, a),
{
    lemma_skips_advance(m, arg(a, 0));
}

proof fn lemma_fixed_measure(m: Machine, writer: AmprExport, a: Seq<u64>)
    requires
        writer is PopMarker || writer is WaitOrCounterNop || writer is AprResetGatherScatterState
            || writer is AprMapEnd,
    ensures
        measured(m, writer, a),
{
    lemma_skips_advance(m, arg(a, 0));
}

proof fn lemma_completion_measure(m: Machine, writer: AmprExport, a: Seq<u64>)
    requires
        writer is WriteAddressRecord || writer is WriteAddress0400
            || writer is WriteAddressFromSource || writer is WriteEqueueRecord,
    ensures
        measured(m, writer, a),
{
    let cb = arg(a, 0);
    law_record_advances(m, cb, bytes_of(write_address(arg(a, 1), arg(a, 2))));
    law_record_advances(m, cb, bytes_of(write_address(arg(a, 1), 0)));
    law_record_advances(m, cb, bytes_of(equeue_record(arg(a, 1), arg(a, 2), arg(a, 3))));
}

proof fn lemma_map_measure(m: Machine, writer: AmprExport, a: Seq<u64>)
    requires
        writer is AprMapBegin || writer is AprMapDirectBegin,
    ensures
        measured(m, writer, a),
{
    lemma_skips_advance(m, arg(a, 0));
}

proof fn lemma_record_measure(m: Machine, writer: AmprExport, a: Seq<u64>)
    requires
        measure(writer, a) is Some,
        !(effect(writer, m, a).1 is Read),
    ensures
        measured(m, writer, a),
{
    match writer {
        AmprExport::Nop | AmprExport::NopWithData => {
            lemma_nop_measure(m, writer, a);
        },
        AmprExport::Marker | AmprExport::MarkerWithColor => {
            lemma_marker_measure(m, writer, a);
        },
        AmprExport::AprMapBegin | AmprExport::AprMapDirectBegin => {
            lemma_map_measure(m, writer, a);
        },
        AmprExport::WriteAddressRecord
        | AmprExport::WriteAddress0400
        | AmprExport::WriteAddressFromSource
        | AmprExport::WriteEqueueRecord => {
            lemma_completion_measure(m, writer, a);
        },
        AmprExport::AprReadFile
        | AmprExport::AprReadFileGather
        | AmprExport::AprReadFileScatter
        | AmprExport::AprReadFileGatherScatter => {},
        _ => {
            lemma_fixed_measure(m, writer, a);
        },
    }
}

/// A read that failed before the host was asked.
spec fn failed_at_once(reply: Reply) -> bool {
    match reply {
        Reply::Read(ReadState::Done { code }) => code != OK,
        _ => false,
    }
}

/// The measures of the reads.
proof fn lemma_read_measure(m: Machine, writer: AmprExport, a: Seq<u64>)
    requires
        measure(writer, a) is Some,
        effect(writer, m, a).1 is Read,
    ensures
        ({
            let (e, b) = measure(writer, a)->0;
            let reply = effect(writer, m, a).1;
            &&& effect(e, m, b).0 == m
            &&& effect(e, m, b).1 == Reply::Return(READ_FILE_RECORD_SIZE) || failed_at_once(reply)
        }),
{
}

/// Every measured size is what the writer of the same command takes, called by
/// name: let `writer_name` be answered by a writer and `measure_name` by its
/// measure. If the writer, called with `a` and with whatever the host answers to
/// a read, ends well, then the cursor of its command buffer has moved by exactly
/// what the measure answers to the same arguments, before the call.
pub proof fn law_measure_by_name(
    r: Registry,
    writer_name: Key,
    measure_name: Key,
    writer: AmprExport,
    m: Machine,
    a: Seq<u64>,
    after: Machine,
    reply: Reply,
    answers_of_host: Seq<Answer>,
    asked: Machine,
    size: Reply,
)
    requires
        measure(writer, a) is Some,
        r.exports[writer_name].handler == Handler::Ampr(writer),
        r.exports[measure_name].handler == Handler::Ampr((measure(writer, a)->0).0),
        answers(r.exports[writer_name].handler, m, a, after, reply),
        answers(r.exports[measure_name].handler, m, (measure(writer, a)->0).1, asked, size),
        settled(after, reply, answers_of_host).1,
    ensures
        asked == m,
        size == Reply::Return(
            (cursor(settled(after, reply, answers_of_host).0, arg(a, 0)) - cursor(
                m,
                arg(a, 0),
            )) as u64,
        ),
        cursor(settled(after, reply, answers_of_host).0, arg(a, 0)) >= cursor(m, arg(a, 0)),
{
    if reply is Read {
        lemma_read_measure(m, writer, a);
        lemma_read_takes(m, writer, a, answers_of_host);
        if let Reply::Read(s) = reply {
            lemma_ended_stays(after, s, answers_of_host);
        }
    } else {
        lemma_record_measure(m, writer, a);
    }
}

/// Something that happens to a command buffer: a call, or an answer of the host
/// to a read.
pub enum Event {
    Call { export: AmprExport, args: Seq<u64> },
    Answered { state: ReadState, answer: Answer },
}

/// The machine after an event.
pub open spec fn happened(m: Machine, e: Event) -> Machine {
    match e {
        Event::Call { export, args } => effect(export, m, args).0,
        Event::Answered { state, answer } => after_answer(m, state, answer).0,
    }
}

/// The machine after all of `events`.
pub open spec fn history(m: Machine, events: Seq<Event>) -> Machine
    decreases events.len(),
{
    if events.len() == 0 {
        m
    } else {
        happened(history(m, events.drop_last()), events.last())
    }
}

/// Whether the map window of `cb` is open after an event, when it was `open`
/// before: a begin that succeeds opens it, and an end that succeeds, a
/// construction that succeeds and a destruction close it. Nothing else, and no
/// reset, changes it.
pub open spec fn window_after(m: Machine, e: Event, cb: u64, open: bool) -> bool {
    match e {
        Event::Call { export, args } => if arg(args, 0) != cb || cb == 0 {
            open
        } else {
            match export {
                AmprExport::AprMapBegin | AmprExport::AprMapDirectBegin => open || effect(
                    export,
                    m,
                    args,
                ).1 == Reply::Return(OK),
                AmprExport::AprMapEnd => open && effect(export, m, args).1 != Reply::Return(OK),
                AmprExport::Ctor => open && !write_cb(m, cb, arg(args, 1), arg(args, 2)).1,
                AmprExport::Dtor => false,
                _ => open,
            }
        },
        Event::Answered { .. } => open,
    }
}

/// Whether the map window of `cb` is open after all of `events`, by what was
/// called.
pub open spec fn window(m: Machine, events: Seq<Event>, cb: u64) -> bool
    decreases events.len(),
{
    if events.len() == 0 {
        false
    } else {
        window_after(
            history(m, events.drop_last()),
            events.last(),
            cb,
            window(m, events.drop_last(), cb),
        )
    }
}

/// The window flag of `cb` is up.
pub open spec fn active(m: Machine, cb: u64) -> bool {
    flags_of(m, cb) & APR_TYPE_MAP_ACTIVE != 0
}

proof fn lemma_flag_bits()
    ensures
        forall|f: u32| #[trigger] ((f | 0x0001_0000u32) & !0u32) & 0x0002_0000u32 == f & 0x0002_0000u32,
        forall|f: u32| #[trigger] ((f | 0u32) & !0x0001_0000u32) & 0x0002_0000u32 == f & 0x0002_0000u32,
        forall|f: u32| #[trigger] ((f | 0x0002_0000u32) & !0u32) & 0x0002_0000u32 != 0u32,
        forall|f: u32| #[trigger] ((f | 0u32) & !0x0002_0000u32) & 0x0002_0000u32 == 0u32,
        0u32 & 0x0002_0000u32 == 0u32,
{
    assert(forall|f: u32|
        #[trigger] ((f | 0x0001_0000u32) & !0u32) & 0x0002_0000u32 == f & 0x0002_0000u32)
        by (bit_vector);
    assert(forall|f: u32|
        #[trigger] ((f | 0u32) & !0x0001_0000u32) & 0x0002_0000u32 == f & 0x0002_0000u32)
        by (bit_vector);
    assert(forall|f: u32| #[trigger] ((f | 0x0002_0000u32) & !0u32) & 0x0002_0000u32 != 0u32)
        by (bit_vector);
    assert(forall|f: u32| #[trigger] ((f | 0u32) & !0x0002_0000u32) & 0x0002_0000u32 == 0u32)
        by (bit_vector);
    assert(0u32 & 0x0002_0000u32 == 0u32) by (bit_vector);
}

proof fn lemma_finish_keeps_window(m: Machine, job: ReadJob, bytes_read: u64, cb: u64)
    ensures
        active(finish_read(m, job, bytes_read).0, cb) == active(m, cb),
{
    lemma_flag_bits();
}

proof fn lemma_append_keeps_window(m: Machine, cb: u64, record: Seq<u8>)
    ensures
        append(m, cb, record).0.ampr.flags == m.ampr.flags,
{
}

proof fn lemma_skip_keeps_window(m: Machine, cb: u64, total: u64, payload: Seq<u8>)
    ensures
        append_skip(m, cb, total, payload).0.ampr.flags == m.ampr.flags,
{
    lemma_append_keeps_window(m, cb, skip_record(total, payload));
}

proof fn lemma_setup_event(m: Machine, export: AmprExport, a: Seq<u64>, cb: u64)
    requires
        export is Ctor || export is Dtor || export is SetBuffer || export is Reset
            || export is ClearBuffer,
    ensures
        ({
            let e = Event::Call { export, args: a };
            active(happened(m, e), cb) == window_after(m, e, cb, active(m, cb))
        }),
{
    lemma_flag_bits();
}

proof fn lemma_record_event(m: Machine, export: AmprExport, a: Seq<u64>)
    requires
        export is WriteEqueueRecord || export is WriteAddressRecord || export is WriteAddress0400
            || export is WriteAddressFromSource || export is Nop || export is NopWithData
            || export is ConstructNop || export is ConstructMarker || export is Marker
            || export is MarkerWithColor || export is PopMarker || export is WaitOrCounterNop,
    ensures
        effect(export, m, a).0.ampr.flags == m.ampr.flags,
{
    assert forall|to: u64, record: Seq<u8>| (#[trigger] append(m, to, record)).0.ampr.flags
        == m.ampr.flags by {
        lemma_append_keeps_window(m, to, record);
    }
    assert forall|to: u64, total: u64, payload: Seq<u8>| (#[trigger] append_skip(
        m,
        to,
        total,
        payload,
    )).0.ampr.flags == m.ampr.flags by {
        lemma_skip_keeps_window(m, to, total, payload);
    }
}

proof fn lemma_flag_event(m: Machine, export: AmprExport, a: Seq<u64>, cb: u64)
    requires
        export is AprResetGatherScatterState || export is AprMapBegin
            || export is AprMapDirectBegin || export is AprMapEnd,
    ensures
        ({
            let e = Event::Call { export, args: a };
            active(happened(m, e), cb) == window_after(m, e, cb, active(m, cb))
        }),
{
    lemma_flag_bits();
    let to = arg(a, 0);
    lemma_skip_keeps_window(m, to, RESET_GATHER_SCATTER_RECORD_SIZE, Seq::empty());
    lemma_skip_keeps_window(m, to, MAP_BEGIN_RECORD_SIZE, Seq::empty());
    lemma_skip_keeps_window(m, to, MAP_DIRECT_BEGIN_RECORD_SIZE, Seq::empty());
    lemma_skip_keeps_window(m, to, MAP_END_RECORD_SIZE, Seq::empty());
}

proof fn lemma_read_keeps_window(m: Machine, job: ReadJob, done: u64, cb: u64)
    ensures
        active(start_read(m, job).0, cb) == active(m, cb),
        active(next_chunk(m, job, done).0, cb) == active(m, cb),
{
    lemma_finish_keeps_window(m, job, 0, cb);
    lemma_finish_keeps_window(m, job, done, cb);
}

proof fn lemma_read_event(m: Machine, export: AmprExport, a: Seq<u64>, cb: u64)
    requires
        export is AprReadFile || export is AprReadFileGather || export is AprReadFileScatter
            || export is AprReadFileGatherScatter,
    ensures
        active(effect(export, m, a).0, cb) == active(m, cb),
{
    assert forall|job: ReadJob| active((#[trigger] start_read(m, job)).0, cb) == active(m, cb) by {
        lemma_read_keeps_window(m, job, 0, cb);
    }
}

proof fn lemma_answer_event(m: Machine, s: ReadState, answer: Answer, cb: u64)
    ensures
        active(after_answer(m, s, answer).0, cb) == active(m, cb),
{
    match (s, answer) {
        (ReadState::Open { job }, Answer::Length(Ok(n))) => {
            lemma_finish_keeps_window(m, job, 0, cb);
            lemma_read_keeps_window(m, job, 0, cb);
        },
        (ReadState::Chunk { job, done, offset, want }, Answer::Data(Ok(bytes))) => {
            let b = wanted(bytes, want);
            let mem = put(m.mem, job.destination + done, b).0;
            lemma_finish_keeps_window(m, job, done, cb);
            lemma_read_keeps_window(m.with_mem(mem), job, (done + b.len()) as u64, cb);
        },
        _ => {},
    }
}

proof fn lemma_event(m: Machine, e: Event, cb: u64)
    ensures
        active(happened(m, e), cb) == window_after(m, e, cb, active(m, cb)),
{
    match e {
        Event::Answered { state, answer } => {
            lemma_answer_event(m, state, answer, cb);
        },
        Event::Call { export, args } => match export {
            AmprExport::Ctor
            | AmprExport::Dtor
            | AmprExport::SetBuffer
            | AmprExport::Reset
            | AmprExport::ClearBuffer => {
                lemma_setup_event(m, export, args, cb);
            },
            AmprExport::WriteEqueueRecord
            | AmprExport::WriteAddressRecord
            | AmprExport::WriteAddress0400
            | AmprExport::WriteAddressFromSource
            | AmprExport::Nop
            | AmprExport::NopWithData
            | AmprExport::ConstructNop
            | AmprExport::ConstructMarker
            | AmprExport::Marker
            | AmprExport::MarkerWithColor
            | AmprExport::PopMarker
            | AmprExport::WaitOrCounterNop => {
                lemma_record_event(m, export, args);
            },
            AmprExport::AprResetGatherScatterState
            | AmprExport::AprMapBegin
            | AmprExport::AprMapDirectBegin
            | AmprExport::AprMapEnd => {
                lemma_flag_event(m, export, args, cb);
            },
            AmprExport::AprReadFile
            | AmprExport::AprReadFileGather
            | AmprExport::AprReadFileScatter
            | AmprExport::AprReadFileGatherScatter => {
                lemma_read_event(m, export, args, cb);
            },
            _ => {
                assert(effect(export, m, args).0 == m);
            },
        },
    }
}

/// The window flag of a command buffer says exactly what was called: it is up
/// when a begin call succeeded since the last construction, destruction or
/// successful end, whatever happened in between, on this buffer or others.
pub proof fn law_window_flag_follows_calls(m: Machine, events: Seq<Event>, cb: u64)
    requires
        !active(m, cb),
    ensures
        active(history(m, events), cb) == window(m, events, cb),
    decreases events.len(),
{
    if events.len() > 0 {
        law_window_flag_follows_calls(m, events.drop_last(), cb);
        lemma_event(history(m, events.drop_last()), events.last(), cb);
    }
}

/// Closing a window is not permitted, and changes nothing, exactly when the
/// buffer is null or no begin call succeeded since its last construction,
/// destruction or successful end. Otherwise, with room for its record, it
/// succeeds and lowers the flag, and closing again is not permitted.
pub proof fn law_map_end_needs_begin(m: Machine, events: Seq<Event>, a: Seq<u64>)
    requires
        !active(m, arg(a, 0)),
    ensures
        ({
            let cb = arg(a, 0);
            let now = history(m, events);
            let (after, code) = apr_map_end(now, a);
            &&& code == SCE_ERROR_PERMISSION_DENIED <==> cb == 0 || !window(m, events, cb)
            &&& code == SCE_ERROR_PERMISSION_DENIED ==> after == now
            &&& code != SCE_ERROR_PERMISSION_DENIED && append_skip(
                now,
                cb,
                MAP_END_RECORD_SIZE,
                Seq::empty(),
            ).1 == OK ==> {
                &&& code == OK
                &&& !active(after, cb)
                &&& apr_map_end(after, a) == (after, SCE_ERROR_PERMISSION_DENIED)
            }
        }),
{
    law_window_flag_follows_calls(m, events, arg(a, 0));
    lemma_flag_bits();
}

} // verus!
