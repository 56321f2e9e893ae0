//! What the file reads ask of the host, and what they leave in memory: each read's
//! job against the arguments of its call, and the part of the file that a read
//! that ended well has put at the caller's address.
use vstd::prelude::*;
use crate::agc::effects::{
    apart, changed_only, lemma_kept_reads, lemma_put_keeps, lemma_rest_is_kept,
};
use crate::context::{arg, Machine};
use crate::libsce_ampr::records::{law_read_record, record_at, returned, takes_record, written};
use crate::libsce_ampr::{
    apr_read_file, chunk_step, effect, finish_with, law_read_is_exact, next_chunk, open_step,
    requested, serve, AmprExport, HostError, ReadJob, ReadState,
};
use crate::mem::{
    law_put_keeps_mapping, law_read_back, load, load_u32, load_u64, mapped, put, store,
};

verus! {

/// The machine behind a call of an export, and the read that it asks for.
pub open spec fn asked(e: AmprExport, m: Machine, a: Seq<u64>) -> (Machine, ReadState) {
    let (after, reply) = effect(e, m, a);
    (after, reply->Read_0)
}

/// The `size` bytes of `file` at `offset`, or what there is of them.
pub open spec fn part(file: Seq<u8>, offset: u64, size: u64) -> Seq<u8> {
    if offset >= file.len() {
        Seq::empty()
    } else if offset + size <= file.len() {
        file.subrange(offset as int, offset + size)
    } else {
        file.subrange(offset as int, file.len() as int)
    }
}

/// What becomes of a job at first, when the file is `file_id` and the rest is as
/// the caller asked: an unknown file has no entry, and is remembered as missing;
/// nothing to read is recorded at once; an offset beyond 2^63 is an invalid
/// argument; and otherwise the host is asked for exactly this job.
pub open spec fn starts(m: Machine, r: (Machine, ReadState), job: ReadJob) -> bool {
    let known = m.ampr.files.dom().contains(job.file_id as u64);
    &&& !known ==> {
        &&& r.1 == (ReadState::Done { code: 0x8002_0002 })
        &&& r.0.ampr.missing.dom().contains(job.file_id as u64)
        &&& r.0.mem == m.mem && r.0.ampr.offsets == m.ampr.offsets
    }
    &&& known && job.size == 0 ==> {
        &&& r.1 is Done
        &&& takes_record(m, job.cb, 0x30) ==> r.1 == (ReadState::Done { code: 0 })
            && written(r.0, job.cb) == written(m, job.cb) + 0x30 && load_u64(
            r.0.mem,
            record_at(m, job.cb) + 0x20,
        ) == Some(0u64)
        &&& !takes_record(m, job.cb, 0x30) ==> r == (m, ReadState::Done { code: 0x8002_000E })
    }
    &&& known && job.size != 0 && job.file_offset > 0x7FFF_FFFF_FFFF_FFFF ==> r == (
        m,
        ReadState::Done { code: 0x8002_0016 },
    )
    &&& known && job.size != 0 && job.file_offset <= 0x7FFF_FFFF_FFFF_FFFF ==> r == (
        m,
        ReadState::Open { job },
    )
}

/// A plain read asks the host for the file, destination, size and file offset that
/// the caller passed, all 64 bits of each. A null command buffer is an invalid
/// argument, and so is a null destination for anything to read.
pub proof fn law_plain_read_asks(m: Machine, a: Seq<u64>)
    ensures
        ({
            let r = asked(AmprExport::AprReadFile, m, a);
            let valid = arg(a, 0) != 0 && (arg(a, 4) != 0 || arg(a, 5) == 0);
            &&& !valid ==> r == (m, ReadState::Done { code: 0x8002_0016 })
            &&& valid ==> starts(
                m,
                r,
                (ReadJob {
                    cb: arg(a, 0),
                    file_id: arg(a, 3) as u32,
                    destination: arg(a, 4),
                    size: arg(a, 5),
                    file_offset: arg(a, 6),
                }),
            )
            &&& r.1 is Open ==> {
                &&& r.1->Open_job.cb == arg(a, 0)
                &&& r.1->Open_job.destination == arg(a, 4)
                &&& r.1->Open_job.size == arg(a, 5)
                &&& r.1->Open_job.file_offset == arg(a, 6)
            }
        }),
{
    let job = ReadJob {
        cb: arg(a, 0),
        file_id: arg(a, 3) as u32,
        destination: arg(a, 4),
        size: arg(a, 5),
        file_offset: arg(a, 6),
    };
    law_read_record(m, job, 0);
}

/// A read of at most 4 GiB, and of something.
pub open spec fn is_length(size: u64) -> bool {
    0 < size <= 0x1_0000_0000
}

/// A range that ends inside the application's addresses.
pub open spec fn is_range(destination: u64, size: u64) -> bool {
    is_length(size) && destination + size <= 0xF000_0000_0000
}

/// A gather goes on where the stream's last read ended in memory, with the size and
/// file offset that the caller passed; a scatter goes on where it ended in the
/// file, with the caller's destination and size; the two together take all three
/// from the caller. All read the stream's file, and none starts without a stream.
pub proof fn law_stream_reads_ask(m: Machine, a: Seq<u64>)
    ensures
        ({
            let cb = arg(a, 0);
            let s = m.ampr.streams[cb];
            let streaming = cb != 0 && m.ampr.streams.dom().contains(cb);
            let refused = (m, ReadState::Done { code: 0x8002_0016 });
            let gathers = streaming && is_range(s.next_destination, arg(a, 3)) && arg(a, 4)
                < 0x100_0000_0000;
            let scatters = streaming && is_range(arg(a, 3), arg(a, 4)) && s.next_file_offset
                < 0x100_0000_0000;
            let both = streaming && is_range(arg(a, 3), arg(a, 4)) && arg(a, 5) < 0x100_0000_0000;
            &&& !gathers ==> asked(AmprExport::AprReadFileGather, m, a) == refused
            &&& gathers ==> starts(
                m,
                asked(AmprExport::AprReadFileGather, m, a),
                (ReadJob {
                    cb,
                    file_id: s.file_id,
                    destination: s.next_destination,
                    size: arg(a, 3),
                    file_offset: arg(a, 4),
                }),
            )
            &&& !scatters ==> asked(AmprExport::AprReadFileScatter, m, a) == refused
            &&& scatters ==> starts(
                m,
                asked(AmprExport::AprReadFileScatter, m, a),
                (ReadJob {
                    cb,
                    file_id: s.file_id,
                    destination: arg(a, 3),
                    size: arg(a, 4),
                    file_offset: s.next_file_offset,
                }),
            )
            &&& !both ==> asked(AmprExport::AprReadFileGatherScatter, m, a) == refused
            &&& both ==> starts(
                m,
                asked(AmprExport::AprReadFileGatherScatter, m, a),
                (ReadJob {
                    cb,
                    file_id: s.file_id,
                    destination: arg(a, 3),
                    size: arg(a, 4),
                    file_offset: arg(a, 5),
                }),
            )
        }),
{
}

/// The measures of the stream reads: 0x30 bytes for arguments that the reads
/// accept, an invalid argument for the others.
pub proof fn law_stream_read_sizes(m: Machine, a: Seq<u64>)
    ensures
        returned(AmprExport::MeasureReadFileGather, m, a).1 == if is_length(arg(a, 0)) && arg(a, 1) < 0x100_0000_0000 {
            0x30u64
        } else {
            0x8002_0016
        },
        returned(AmprExport::MeasureReadFileScatter, m, a).1 == if is_range(arg(a, 0), arg(a, 1)) {
            0x30u64
        } else {
            0x8002_0016
        },
        returned(AmprExport::MeasureReadFileGatherScatter, m, a).1 == if is_range(arg(a, 0), arg(a, 1)) && arg(a, 2)
            < 0x100_0000_0000 {
            0x30u64
        } else {
            0x8002_0016
        },
{
}

/// What the host is asked for while a read goes on: once the file is open, the
/// bytes behind those that are there already, at most 1 MiB at a time and never
/// more than are still missing; and what it answers goes behind them in memory.
pub proof fn law_chunks_go_on(m: Machine, job: ReadJob, done: u64)
    ensures
        ({
            let (after, s) = next_chunk(m, job, done);
            &&& done < job.size && job.file_offset + done <= 0x7FFF_FFFF_FFFF_FFFF ==> {
                &&& after == m
                &&& s is Chunk
                &&& s->Chunk_job == job
                &&& s->Chunk_done == done
                &&& s->Chunk_offset == job.file_offset + done
                &&& s->Chunk_want <= 0x10_0000
                &&& s->Chunk_want == 0x10_0000 || done + s->Chunk_want == job.size
                &&& done + s->Chunk_want <= job.size
            }
            &&& done < job.size && job.file_offset + done > 0x7FFF_FFFF_FFFF_FFFF ==> (after, s)
                == (m, ReadState::Done { code: 0x8002_0016 })
        }),
{
}

/// An answer of the host: its bytes, no more than were wanted, go behind those that
/// are there already, at the job's destination, and no other byte changes; a file
/// or a read that the host refuses ends the read with its error.
pub proof fn law_answers(m: Machine, job: ReadJob, done: u64, want: u64, bytes: Seq<u8>)
    requires
        done + want <= job.size,
        0 < bytes.len() <= want,
    ensures
        ({
            let s = ReadState::Chunk { job, done, offset: (job.file_offset + done) as u64, want };
            let (after, next) = chunk_step(m, s, Ok(bytes));
            let at = job.destination + done;
            &&& !mapped(m.mem, at, bytes.len()) ==> (after, next) == (
                m,
                ReadState::Done { code: 0x8002_000E },
            )
            &&& mapped(m.mem, at, bytes.len()) && done + bytes.len() < job.size ==> {
                &&& load(after.mem, at, bytes.len()) == Some(bytes)
                &&& changed_only(m.mem, after.mem, at, bytes.len() as int)
                &&& next is Chunk ==> next->Chunk_done == done + bytes.len()
            }
        }),
        ({
            let s = ReadState::Chunk { job, done, offset: (job.file_offset + done) as u64, want };
            &&& chunk_step(m, s, Err(HostError::PermissionDenied)) == (
                m,
                ReadState::Done { code: 0x8002_0001 },
            )
            &&& chunk_step(m, s, Err(HostError::Other)) == (
                m,
                ReadState::Done { code: 0x8002_0002 },
            )
        }),
        open_step(m, ReadState::Open { job }, Err(HostError::PermissionDenied)) == (
            m,
            ReadState::Done { code: 0x8002_0001 },
        ),
        open_step(m, ReadState::Open { job }, Err(HostError::Other)) == (
            m,
            ReadState::Done { code: 0x8002_0002 },
        ),
{
    let at = job.destination + done;
    law_put_keeps_mapping(m.mem, at, bytes);
    if mapped(m.mem, at, bytes.len()) {
        law_read_back(m.mem, at, bytes);
    }
}

/// A plain read that ended well has put the requested part of the file at the
/// address that the caller passed, and has recorded how much that was. The host
/// answers from `file`, in pieces of at least one byte. (The destination is mapped,
/// and apart from the command buffer and its record.)
pub proof fn law_plain_read_delivers(m: Machine, a: Seq<u64>, file: Seq<u8>, sizes: Seq<nat>)
    requires
        asked(AmprExport::AprReadFile, m, a).1 is Open,
        file.len() <= 0x7FFF_FFFF_FFFF_FFFF,
        forall|i: int| 0 <= i < sizes.len() ==> #[trigger] sizes[i] > 0,
        ({
            let data = part(file, arg(a, 6), arg(a, 5));
            &&& mapped(m.mem, arg(a, 4) as int, data.len())
            &&& apart(arg(a, 4) as int, data.len() as int, arg(a, 0) as int, 0x18)
            &&& apart(arg(a, 4) as int, data.len() as int, record_at(m, arg(a, 0)), 0x30)
        }),
    ensures
        ({
            let opened = open_step(
                asked(AmprExport::AprReadFile, m, a).0,
                asked(AmprExport::AprReadFile, m, a).1,
                Ok(file.len() as u64),
            );
            let (after, end) = serve(opened.0, opened.1, file, sizes);
            let data = part(file, arg(a, 6), arg(a, 5));
            let at = record_at(m, arg(a, 0));
            &&& sizes.len() > data.len() ==> end is Done
            &&& end == (ReadState::Done { code: 0 }) ==> {
                &&& load(after.mem, arg(a, 4) as int, data.len()) == Some(data)
                &&& load_u32(after.mem, at) == Some(1u32)
                &&& load_u32(after.mem, at + 4) == Some(arg(a, 3) as u32)
                &&& load_u64(after.mem, at + 0x08) == Some(arg(a, 4))
                &&& load_u64(after.mem, at + 0x10) == Some(arg(a, 5))
                &&& load_u64(after.mem, at + 0x18) == Some(arg(a, 6))
                &&& load_u64(after.mem, at + 0x20) == Some(data.len() as u64)
            }
        }),
{
    let job = apr_read_file(m, a).1->Open_job;
    law_plain_read_asks(m, a);
    lemma_read_delivers(m, job, file, sizes);
}

/// Any job that ended well has put the requested part of the file at its
/// destination, and has recorded itself.
pub proof fn lemma_read_delivers(m: Machine, job: ReadJob, file: Seq<u8>, sizes: Seq<nat>)
    requires
        job.size > 0,
        file.len() <= 0x7FFF_FFFF_FFFF_FFFF,
        forall|i: int| 0 <= i < sizes.len() ==> #[trigger] sizes[i] > 0,
        ({
            let data = part(file, job.file_offset, job.size);
            &&& mapped(m.mem, job.destination as int, data.len())
            &&& apart(job.destination as int, data.len() as int, job.cb as int, 0x18)
            &&& apart(job.destination as int, data.len() as int, record_at(m, job.cb), 0x30)
        }),
    ensures
        ({
            let opened = open_step(m, ReadState::Open { job }, Ok(file.len() as u64));
            let (after, end) = serve(opened.0, opened.1, file, sizes);
            let data = part(file, job.file_offset, job.size);
            let at = record_at(m, job.cb);
            &&& sizes.len() > data.len() ==> end is Done
            &&& end == (ReadState::Done { code: 0 }) ==> {
                &&& load(after.mem, job.destination as int, data.len()) == Some(data)
                &&& load_u32(after.mem, at) == Some(1u32)
                &&& load_u32(after.mem, at + 4) == Some(job.file_id)
                &&& load_u64(after.mem, at + 0x08) == Some(job.destination)
                &&& load_u64(after.mem, at + 0x10) == Some(job.size)
                &&& load_u64(after.mem, at + 0x18) == Some(job.file_offset)
                &&& load_u64(after.mem, at + 0x20) == Some(data.len() as u64)
            }
        }),
{
    let data = part(file, job.file_offset, job.size);
    assert(data =~= requested(job, file));
    law_read_is_exact(m, job, file, sizes);
    let opened = open_step(m, ReadState::Open { job }, Ok(file.len() as u64));
    let (after, end) = serve(opened.0, opened.1, file, sizes);
    let at = record_at(m, job.cb);
    let d = job.destination as int;
    let stored = m.with_mem(store(m.mem, d, data));
    if end is Done {
        assert((after, end) == finish_with(m, job, data));
        assert(put(m.mem, d, data) == (stored.mem, true));
        lemma_put_keeps(m.mem, d, data, job.cb as int, 0x18);
        lemma_kept_reads(m.mem, stored.mem, job.cb as int, 0x18, job.cb + 0x08, 8);
        assert(record_at(stored, job.cb) == at);
        law_read_record(stored, job, data.len() as u64);
        law_read_back(m.mem, d, data);
        if end == (ReadState::Done { code: 0 }) {
            lemma_rest_is_kept(stored.mem, after.mem, at, 0x30, d, data.len() as int);
            lemma_kept_reads(stored.mem, after.mem, d, data.len() as int, d, data.len());
        }
    }
}

/// What the host answers beyond what it was asked for does not count.
pub proof fn law_overlong_answer(m: Machine, job: ReadJob, done: u64, want: u64, bytes: Seq<u8>)
    requires
        bytes.len() > want,
    ensures
        ({
            let s = ReadState::Chunk { job, done, offset: (job.file_offset + done) as u64, want };
            chunk_step(m, s, Ok(bytes)) == chunk_step(m, s, Ok(bytes.take(want as int)))
        }),
{
}

} // verus!
