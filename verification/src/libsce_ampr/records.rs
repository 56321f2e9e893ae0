//! What the records of a command buffer hold: each record, read back from memory
//! field by field, against the arguments of the call that appended it.
use vstd::prelude::*;
use crate::agc::effects::{
    apart, changed_only, kept, lemma_kept_reads, lemma_put_changes_only, lemma_put_keeps,
    lemma_put_u64_keeps_rest,
};
use crate::agc::fields::{joined, lemma_halves, lemma_put_u64_keeps, lemma_word, lemma_word_pair};
use crate::bytes::{lemma_auto_spec_u32_to_from_le_bytes, spec_u32_to_le_bytes};
use crate::context::{arg, Machine};
use crate::libsce_ampr::{
    append, append_marker, append_skip, bind, clear_aux, effect, equeue_record, finish_read,
    law_record_reads_back, marker_size, marker_text, read_record, skip_record, write_address,
    write_cb, write_equeue_record, AmprExport, ReadJob, ReadState,
};
use crate::mem::{
    bytes_of, law_read_back_u64, law_words_read_back, load, load_u32, load_u64, load_words, mapped,
    put_u64, Mem,
};
use crate::registry::Reply;
use crate::text::cstring;

verus! {

/// The machine behind a call of an export, and the value that the call returns.
pub open spec fn returned(e: AmprExport, m: Machine, a: Seq<u64>) -> (Machine, u64) {
    let (after, reply) = effect(e, m, a);
    (after, reply->Return_0)
}

/// Where the next record of the command buffer at `cb` goes: the buffer that its
/// header names at 8, behind what was written before.
pub open spec fn record_at(m: Machine, cb: u64) -> int {
    load_u64(m.mem, cb + 0x08)->0 + written(m, cb)
}

/// How many bytes of records the command buffer at `cb` holds.
pub open spec fn written(m: Machine, cb: u64) -> u64 {
    if m.ampr.offsets.dom().contains(cb) {
        m.ampr.offsets[cb]
    } else {
        0
    }
}

/// How many records the command buffer at `cb` holds.
pub open spec fn records(m: Machine, cb: u64) -> u64 {
    if m.ampr.counts.dom().contains(cb) {
        m.ampr.counts[cb]
    } else {
        0
    }
}

/// The command buffer at `cb` takes a record of `n` bytes: its header is readable
/// and names a buffer (at 8) with that much left of its size (at 0x10), all of it
/// mapped.
pub open spec fn takes_record(m: Machine, cb: u64, n: int) -> bool {
    &&& load_u64(m.mem, cb + 0x08) is Some
    &&& load_u64(m.mem, cb + 0x10) is Some
    &&& load_u64(m.mem, cb + 0x08) != Some(0u64)
    &&& written(m, cb) + n <= load_u64(m.mem, cb + 0x10)->0
    &&& mapped(m.mem, record_at(m, cb), n as nat)
}

/// A record of `n` bytes was appended to the command buffer at `cb`, or there was
/// no room for it, which is a memory fault and changes nothing.
pub open spec fn appends(m: Machine, cb: u64, r: (Machine, u64), n: int) -> bool {
    &&& r.1 == 0 <==> takes_record(m, cb, n)
    &&& r.1 == 0 ==> {
        &&& written(r.0, cb) == written(m, cb) + n
        &&& records(r.0, cb) == (records(m, cb) + 1) % 0x1_0000_0000_0000_0000
        &&& changed_only(m.mem, r.0.mem, record_at(m, cb), n)
    }
    &&& r.1 != 0 ==> r.1 == 0x8002_000E && r.0 == m
}

/// An appended record stands behind the records before it, and nothing else in
/// memory changes.
pub proof fn law_append(m: Machine, cb: u64, record: Seq<u8>)
    ensures
        ({
            let (after, ok) = append(m, cb, record);
            let code: u64 = if ok {
                0
            } else {
                0x8002_000E
            };
            &&& record.len() <= u64::MAX ==> appends(m, cb, (after, code), record.len() as int)
            &&& ok ==> load(after.mem, record_at(m, cb), record.len()) == Some(record)
        }),
{
    let (after, ok) = append(m, cb, record);
    if ok {
        law_record_reads_back(m, cb, record);
        lemma_put_changes_only(m.mem, record_at(m, cb), record);
    }
}

proof fn lemma_words_append(m: Machine, cb: u64, words: Seq<u32>)
    requires
        words.len() <= 0x1_0000,
    ensures
        ({
            let (after, ok) = append(m, cb, bytes_of(words));
            let code: u64 = if ok {
                0
            } else {
                0x8002_000E
            };
            &&& appends(m, cb, (after, code), 4 * words.len() as int)
            &&& ok ==> load_words(after.mem, record_at(m, cb), words.len()) == Some(words)
        }),
{
    law_append(m, cb, bytes_of(words));
    if append(m, cb, bytes_of(words)).1 {
        law_words_read_back(m.mem, record_at(m, cb), words);
    }
}

/// The record of an event-queue completion: type 2, the filter, and the whole
/// queue, ident and user data, which stands twice.
pub proof fn law_equeue_record(m: Machine, a: Seq<u64>)
    ensures
        ({
            let (after, code) = returned(AmprExport::WriteEqueueRecord, m, a);
            let at = record_at(m, arg(a, 0));
            &&& arg(a, 0) == 0 ==> code == 0x8002_0016 && after == m
            &&& arg(a, 0) != 0 ==> appends(m, arg(a, 0), (after, code), 0x30)
            &&& code == 0 ==> {
                &&& load_u32(after.mem, at) == Some(2u32)
                &&& load_u32(after.mem, at + 4) == Some(0xFF9Cu32)
                &&& load_u64(after.mem, at + 0x08) == Some(arg(a, 1))
                &&& load_u64(after.mem, at + 0x10) == Some(arg(a, 2))
                &&& load_u64(after.mem, at + 0x18) == Some(arg(a, 3))
                &&& load_u64(after.mem, at + 0x20) == Some(arg(a, 3))
                &&& load_u64(after.mem, at + 0x28) == Some(0u64)
            }
        }),
{
    let words = equeue_record(arg(a, 1), arg(a, 2), arg(a, 3));
    let at = record_at(m, arg(a, 0));
    lemma_words_append(m, arg(a, 0), words);
    let (after, code) = write_equeue_record(m, a);
    if code == 0 {
        lemma_halves();
        lemma_word(after.mem, at, words, 0);
        lemma_word(after.mem, at, words, 1);
        lemma_word_pair(after.mem, at, words, 2);
        lemma_word_pair(after.mem, at, words, 4);
        lemma_word_pair(after.mem, at, words, 6);
        lemma_word_pair(after.mem, at, words, 8);
        lemma_word_pair(after.mem, at, words, 10);
        assert(joined(words[2], words[3]) == arg(a, 1));
        assert(joined(words[4], words[5]) == arg(a, 2));
        assert(joined(words[6], words[7]) == arg(a, 3));
        assert(joined(words[8], words[9]) == arg(a, 3));
    }
}

/// The record that writes to an address: type 3, the whole address, and the whole
/// value, which is zero where the value comes from a source.
pub proof fn law_write_address_records(m: Machine, a: Seq<u64>)
    ensures
        returned(AmprExport::WriteAddress0400, m, a) == returned(
            AmprExport::WriteAddressRecord,
            m,
            a,
        ),
        ({
            let (after, code) = returned(AmprExport::WriteAddressRecord, m, a);
            let at = record_at(m, arg(a, 0));
            let valid = arg(a, 0) != 0 && arg(a, 1) != 0;
            &&& !valid ==> code == 0x8002_0016 && after == m
            &&& valid ==> appends(m, arg(a, 0), (after, code), 0x20)
            &&& code == 0 ==> {
                &&& load_u32(after.mem, at) == Some(3u32)
                &&& load_u64(after.mem, at + 0x08) == Some(arg(a, 1))
                &&& load_u64(after.mem, at + 0x10) == Some(arg(a, 2))
            }
        }),
        ({
            let (after, code) = returned(AmprExport::WriteAddressFromSource, m, a);
            let at = record_at(m, arg(a, 0));
            let valid = arg(a, 0) != 0 && arg(a, 1) != 0;
            &&& !valid ==> code == 0x8002_0016 && after == m
            &&& valid ==> appends(m, arg(a, 0), (after, code), 0x20)
            &&& code == 0 ==> {
                &&& load_u32(after.mem, at) == Some(3u32)
                &&& load_u64(after.mem, at + 0x08) == Some(arg(a, 1))
                &&& load_u64(after.mem, at + 0x10) == Some(0u64)
            }
        }),
{
    lemma_write_address(m, arg(a, 0), arg(a, 1), arg(a, 2));
    lemma_write_address(m, arg(a, 0), arg(a, 1), 0);
}

proof fn lemma_write_address(m: Machine, cb: u64, address: u64, value: u64)
    ensures
        ({
            let (after, ok) = append(m, cb, bytes_of(write_address(address, value)));
            let code: u64 = if ok {
                0
            } else {
                0x8002_000E
            };
            let at = record_at(m, cb);
            &&& appends(m, cb, (after, code), 0x20)
            &&& ok ==> {
                &&& load_u32(after.mem, at) == Some(3u32)
                &&& load_u64(after.mem, at + 0x08) == Some(address)
                &&& load_u64(after.mem, at + 0x10) == Some(value)
            }
        }),
{
    let words = write_address(address, value);
    let at = record_at(m, cb);
    lemma_words_append(m, cb, words);
    let (after, ok) = append(m, cb, bytes_of(words));
    if ok {
        lemma_halves();
        lemma_word(after.mem, at, words, 0);
        lemma_word_pair(after.mem, at, words, 2);
        lemma_word_pair(after.mem, at, words, 4);
        assert(joined(words[2], words[3]) == address);
        assert(joined(words[4], words[5]) == value);
    }
}

/// The record of a read that has ended well: type 1, the file, and the whole
/// destination, size, file offset and number of bytes that were read. The stream
/// of the command buffer goes on behind the read in the same file.
pub proof fn law_read_record(m: Machine, job: ReadJob, bytes_read: u64)
    ensures
        ({
            let (after, s) = finish_read(m, job, bytes_read);
            let at = record_at(m, job.cb);
            &&& s is Done
            &&& s == (ReadState::Done { code: 0 }) <==> takes_record(m, job.cb, 0x30)
            &&& s != (ReadState::Done { code: 0 }) ==> s == (ReadState::Done { code: 0x8002_000E })
                && after == m
            &&& s == (ReadState::Done { code: 0 }) ==> {
                &&& written(after, job.cb) == written(m, job.cb) + 0x30
                &&& records(after, job.cb) == (records(m, job.cb) + 1) % 0x1_0000_0000_0000_0000
                &&& load_u32(after.mem, at) == Some(1u32)
                &&& load_u32(after.mem, at + 4) == Some(job.file_id)
                &&& load_u64(after.mem, at + 0x08) == Some(job.destination)
                &&& load_u64(after.mem, at + 0x10) == Some(job.size)
                &&& load_u64(after.mem, at + 0x18) == Some(job.file_offset)
                &&& load_u64(after.mem, at + 0x20) == Some(bytes_read)
                &&& load_u64(after.mem, at + 0x28) == Some(0u64)
                &&& after.ampr.streams.dom().contains(job.cb)
                &&& after.ampr.streams[job.cb].file_id == job.file_id
                &&& after.ampr.streams[job.cb].next_destination == (job.destination + job.size)
                    % 0x1_0000_0000_0000_0000
                &&& after.ampr.streams[job.cb].next_file_offset == (job.file_offset + job.size)
                    % 0x1_0000_0000_0000_0000
                &&& changed_only(m.mem, after.mem, at, 0x30)
            }
        }),
{
    let words = read_record(job, bytes_read);
    let at = record_at(m, job.cb);
    lemma_words_append(m, job.cb, words);
    let (after, ok) = append(m, job.cb, bytes_of(words));
    if ok {
        lemma_halves();
        lemma_word(after.mem, at, words, 0);
        lemma_word(after.mem, at, words, 1);
        lemma_word_pair(after.mem, at, words, 2);
        lemma_word_pair(after.mem, at, words, 4);
        lemma_word_pair(after.mem, at, words, 6);
        lemma_word_pair(after.mem, at, words, 8);
        lemma_word_pair(after.mem, at, words, 10);
        assert(joined(words[2], words[3]) == job.destination);
        assert(joined(words[4], words[5]) == job.size);
        assert(joined(words[6], words[7]) == job.file_offset);
        assert(joined(words[8], words[9]) == bytes_read);
    }
}

/// A skip record: type 4 and its own length, then its payload, and zeros to the
/// end. A length that is no multiple of four, or is beyond 64 MiB, is a fault.
pub proof fn law_skip_record(m: Machine, cb: u64, total: u64, payload: Seq<u8>)
    ensures
        ({
            let (after, code) = append_skip(m, cb, total, payload);
            let at = record_at(m, cb);
            let valid = 8 <= total <= 0x400_0000 && total % 4 == 0;
            &&& !valid ==> code == 0x8002_000E && after == m
            &&& valid ==> appends(m, cb, (after, code), total as int)
            &&& code == 0 ==> {
                &&& load_u32(after.mem, at) == Some(4u32)
                &&& load_u32(after.mem, at + 4) == Some(total as u32)
                &&& forall|i: int|
                    0 <= i < total - 8 ==> #[trigger] after.mem[at + 8 + i] == (if i
                        < payload.len() {
                        payload[i]
                    } else {
                        0
                    })
            }
        }),
{
    let valid = 8 <= total <= 0x400_0000 && total % 4 == 0;
    if valid {
        let record = skip_record(total, payload);
        let at = record_at(m, cb);
        assert(record.len() == total);
        law_append(m, cb, record);
        let (after, ok) = append(m, cb, record);
        if ok {
            let words = seq![4u32, total as u32];
            let b = load(after.mem, at, record.len())->0;
            assert(b == record);
            assert forall|i: int| 0 <= i < total - 8 implies #[trigger] after.mem[at + 8 + i] == (
            if i < payload.len() {
                payload[i]
            } else {
                0
            }) by {
                assert(b[8 + i] == after.mem[at + (8 + i)]);
                assert(record[8 + i] == (if i < payload.len() {
                    payload[i]
                } else {
                    0
                }));
            }
            assert(bytes_of(words).len() == 8);
            assert(record.take(4 * words.len() as int) =~= bytes_of(words));
            lemma_prefix_words(after.mem, at, record, words);
            lemma_word(after.mem, at, words, 0);
            lemma_word(after.mem, at, words, 1);
        }
    }
}

/// Words at the start of a record that was read back.
proof fn lemma_prefix_words(m: Mem, at: int, record: Seq<u8>, words: Seq<u32>)
    requires
        load(m, at, record.len()) == Some(record),
        4 * words.len() <= record.len(),
        record.take(4 * words.len() as int) == bytes_of(words),
    ensures
        load_words(m, at, words.len()) == Some(words),
{
    let n = words.len();
    assert forall|x: int| at <= x < at + 4 * n implies #[trigger] m.dom().contains(x) by {
        assert(mapped(m, at, record.len()));
    }
    lemma_auto_spec_u32_to_from_le_bytes();
    assert forall|i: int| 0 <= i < n implies #[trigger] load_u32(m, at + 4 * i)->0 == words[i] by {
        assert(mapped(m, at + 4 * i, 4));
        let b = load(m, at + 4 * i, 4)->0;
        assert forall|k: int| 0 <= k < 4 implies #[trigger] b[k]
            == spec_u32_to_le_bytes(words[i])[k] by {
            assert(load(m, at, record.len())->0[4 * i + k] == m[at + (4 * i + k)]);
            assert(record.take(4 * n as int)[4 * i + k] == bytes_of(words)[4 * i + k]);
            assert((4 * i + k) / 4 == i && (4 * i + k) % 4 == k);
        }
        assert(b =~= spec_u32_to_le_bytes(words[i]));
    }
    assert(load_words(m, at, n)->0 =~= words);
}

/// The records that only take room: their lengths, and what they refuse.
pub proof fn law_filler_records(m: Machine, a: Seq<u64>)
    ensures
        ({
            let r = returned(AmprExport::Nop, m, a);
            let n = arg(a, 1) as u32;
            &&& arg(a, 0) == 0 || n == 0 || n > 16 ==> r.1 == 0x8002_0016 && r.0 == m
            &&& arg(a, 0) != 0 && 0 < n <= 16 ==> appends(m, arg(a, 0), r, 8 + 4 * n)
        }),
        ({
            let r = returned(AmprExport::NopWithData, m, a);
            let n = arg(a, 1) as u32;
            &&& arg(a, 0) == 0 || n > 15 ==> r.1 == 0x8002_0016 && r.0 == m
            &&& arg(a, 0) != 0 && n <= 15 ==> appends(m, arg(a, 0), r, 12 + 4 * n)
        }),
        ({
            let r = returned(AmprExport::PopMarker, m, a);
            &&& arg(a, 0) == 0 ==> r.1 == 0x8002_0016 && r.0 == m
            &&& arg(a, 0) != 0 ==> appends(m, arg(a, 0), r, 12)
        }),
        ({
            let r = returned(AmprExport::WaitOrCounterNop, m, a);
            &&& arg(a, 0) == 0 ==> r.1 == 0x8002_0016 && r.0 == m
            &&& arg(a, 0) != 0 ==> appends(m, arg(a, 0), r, 0x20)
        }),
{
    assert forall|total: u64, payload: Seq<u8>|
        8 <= total <= 0x400_0000 && total % 4 == 0 implies appends(
        m,
        arg(a, 0),
        #[trigger] append_skip(m, arg(a, 0), total, payload),
        total as int,
    ) by {
        law_skip_record(m, arg(a, 0), total, payload);
    }
}

/// A skip with data holds the DWORDs at the caller's address behind its length.
pub proof fn law_skip_holds_its_data(m: Machine, a: Seq<u64>, i: int)
    requires
        returned(AmprExport::NopWithData, m, a).1 == 0,
        arg(a, 2) != 0,
        mapped(m.mem, arg(a, 2) as int, 4 * (arg(a, 1) as u32) as nat),
        0 <= i < 4 * (arg(a, 1) as u32),
    ensures
        returned(AmprExport::NopWithData, m, a).0.mem[record_at(m, arg(a, 0)) + 8 + i] == m.mem[arg(a, 2) + i],
{
    let n = arg(a, 1) as u32;
    let data = load(m.mem, arg(a, 2) as int, (4 * n) as nat)->0;
    law_skip_record(m, arg(a, 0), (12 + 4 * n) as u64, data);
    assert(data[i] == m.mem[arg(a, 2) + i]);
}

/// The flags of the command buffer at `cb`.
pub open spec fn type_flags(m: Machine, cb: u64) -> u32 {
    if m.ampr.flags.dom().contains(cb) {
        m.ampr.flags[cb]
    } else {
        0
    }
}

proof fn lemma_all_skips(m: Machine, cb: u64)
    ensures
        forall|total: u64, payload: Seq<u8>|
            8 <= total <= 0x400_0000 && total % 4 == 0 ==> appends(
                m,
                cb,
                #[trigger] append_skip(m, cb, total, payload),
                total as int,
            ),
        forall|total: u64, payload: Seq<u8>|
            (#[trigger] append_skip(m, cb, total, payload)).0.ampr.flags == m.ampr.flags,
{
    assert forall|total: u64, payload: Seq<u8>|
        8 <= total <= 0x400_0000 && total % 4 == 0 implies appends(
        m,
        cb,
        #[trigger] append_skip(m, cb, total, payload),
        total as int,
    ) by {
        law_skip_record(m, cb, total, payload);
    }
}

/// Flags that are set with nothing to clear, and cleared with nothing to set.
proof fn lemma_flags(f: u32)
    ensures
        (f | 0x2_0000u32) & !0u32 == f | 0x2_0000u32,
        (f | 0u32) & !0x2_0000u32 == f & !0x2_0000u32,
        (f | 0u32) & !0x1_0000u32 == f & !0x1_0000u32,
{
    assert((f | 0x2_0000u32) & !0u32 == f | 0x2_0000u32 && (f | 0u32) & !0x2_0000u32 == f
        & !0x2_0000u32 && (f | 0u32) & !0x1_0000u32 == f & !0x1_0000u32) by (bit_vector);
}

/// A window of whole pages, 0x4000 bytes each, that is neither null nor empty and
/// does not pass the end of the address space.
pub open spec fn is_window(va: u64, size: u64) -> bool {
    va != 0 && size != 0 && va % 0x4000 == 0 && size % 0x4000 == 0 && va + size <= u64::MAX
}

/// A map window is opened by either begin and closed by its end: 20, 24 and 12
/// bytes of records, and bit 17 of the flags for as long as it is open. An end
/// without a window is refused.
pub proof fn law_map_window_records(m: Machine, a: Seq<u64>)
    ensures
        ({
            let r = returned(AmprExport::AprMapBegin, m, a);
            let valid = arg(a, 0) != 0 && is_window(arg(a, 1), arg(a, 2));
            &&& !valid ==> r.1 == 0x8002_0016 && r.0 == m
            &&& valid ==> appends(m, arg(a, 0), r, 20)
            &&& r.1 == 0 ==> type_flags(r.0, arg(a, 0)) == type_flags(m, arg(a, 0)) | 0x2_0000
        }),
        ({
            let r = returned(AmprExport::AprMapDirectBegin, m, a);
            let valid = arg(a, 0) != 0 && is_window(arg(a, 1), arg(a, 3)) && arg(a, 2) % 0x4000
                == 0;
            &&& !valid ==> r.1 == 0x8002_0016 && r.0 == m
            &&& valid ==> appends(m, arg(a, 0), r, 24)
            &&& r.1 == 0 ==> type_flags(r.0, arg(a, 0)) == type_flags(m, arg(a, 0)) | 0x2_0000
        }),
        ({
            let r = returned(AmprExport::AprMapEnd, m, a);
            let open = arg(a, 0) != 0 && type_flags(m, arg(a, 0)) & 0x2_0000 != 0;
            &&& !open ==> r.1 == 0x8002_0001 && r.0 == m
            &&& open ==> appends(m, arg(a, 0), r, 12)
            &&& r.1 == 0 ==> type_flags(r.0, arg(a, 0)) == type_flags(m, arg(a, 0)) & !0x2_0000u32
        }),
{
    lemma_all_skips(m, arg(a, 0));
    lemma_flags(type_flags(m, arg(a, 0)));
}

/// A reset of the gather and scatter state takes 12 bytes, forgets the stream, and
/// clears bit 16 of the flags.
pub proof fn law_gather_scatter_reset(m: Machine, a: Seq<u64>)
    ensures
        ({
            let r = returned(AmprExport::AprResetGatherScatterState, m, a);
            let cb = arg(a, 0);
            &&& cb == 0 ==> r.1 == 0x8002_0016 && r.0 == m
            &&& cb != 0 ==> appends(m, cb, r, 12)
            &&& r.1 == 0 ==> type_flags(r.0, cb) == type_flags(m, cb) & !0x1_0000u32
            &&& r.1 == 0 ==> !r.0.ampr.streams.dom().contains(cb)
        }),
{
    lemma_all_skips(m, arg(a, 0));
    lemma_flags(type_flags(m, arg(a, 0)));
}

/// A command buffer that was bound to a buffer names it (at 8) and its size (at
/// 0x10); what was written to it before still counts.
pub proof fn law_buffer_is_bound(m: Machine, a: Seq<u64>)
    ensures
        ({
            let (after, code) = returned(AmprExport::SetBuffer, m, a);
            let cb = arg(a, 0);
            &&& cb == 0 ==> code == 0x8002_0016 && after == m
            &&& cb != 0 && mapped(m.mem, cb + 0x08, 0x10) ==> code == 0
            &&& code != 0 && cb != 0 ==> code == 0x8002_000E
            &&& code == 0 ==> {
                &&& load_u64(after.mem, cb + 0x08) == Some(arg(a, 1))
                &&& load_u64(after.mem, cb + 0x10) == Some(arg(a, 2))
                &&& returned(AmprExport::GetBufferBaseAddress, after, a).1 == arg(a, 1)
                &&& returned(AmprExport::GetSize, after, a).1 == arg(a, 2)
                &&& after.ampr == m.ampr
            }
        }),
{
    lemma_bind(m.mem, arg(a, 0), arg(a, 1), arg(a, 2));
}

proof fn lemma_bind(m: Mem, cb: u64, buffer: u64, size: u64)
    ensures
        mapped(m, cb + 0x08, 0x10) ==> bind(m, cb, buffer, size).1,
        bind(m, cb, buffer, size).1 ==> {
            &&& load_u64(bind(m, cb, buffer, size).0, cb + 0x08) == Some(buffer)
            &&& load_u64(bind(m, cb, buffer, size).0, cb + 0x10) == Some(size)
        },
{
    let (m1, ok) = put_u64(m, cb + 0x08, buffer);
    lemma_put_u64_keeps(m, cb + 0x08, buffer, cb + 0x10, 8);
    lemma_put_u64_keeps(m1, cb + 0x10, size, 0, 0);
    if mapped(m, cb + 0x08, 0x10) {
        assert forall|x: int| cb + 0x08 <= x < cb + 0x10 implies #[trigger] m.dom().contains(
            x,
        ) by {}
        assert forall|x: int| cb + 0x10 <= x < cb + 0x18 implies #[trigger] m.dom().contains(
            x,
        ) by {}
        assert(mapped(m, cb + 0x08, 8) && mapped(m, cb + 0x10, 8));
    }
    if bind(m, cb, buffer, size).1 {
        law_read_back_u64(m, cb + 0x08, buffer);
        law_read_back_u64(m1, cb + 0x10, size);
        lemma_put_u64_keeps_rest(m1, cb + 0x10, size, cb + 0x08, 8);
        lemma_kept_reads(m1, bind(m, cb, buffer, size).0, cb + 0x08, 8, cb + 0x08, 8);
    }
}

/// A command buffer that is cleared hands back the buffer it was bound to, and is
/// bound to nothing.
pub proof fn law_cleared_buffer_is_handed_back(m: Machine, a: Seq<u64>)
    ensures
        ({
            let (after, r) = returned(AmprExport::ClearBuffer, m, a);
            let cb = arg(a, 0);
            &&& cb == 0 ==> r == 0x8002_0016 && after == m
            &&& cb != 0 && mapped(m.mem, cb + 0x08, 0x10) ==> {
                &&& Some(r) == load_u64(m.mem, cb + 0x08)
                &&& load_u64(after.mem, cb + 0x08) == Some(0u64)
                &&& load_u64(after.mem, cb + 0x10) == Some(0u64)
                &&& after.ampr == m.ampr
            }
        }),
{
    lemma_bind(m.mem, arg(a, 0), 0, 0);
    let cb = arg(a, 0);
    if mapped(m.mem, cb + 0x08, 0x10) {
        assert forall|x: int| cb + 0x08 <= x < cb + 0x10 implies #[trigger] m.mem.dom().contains(
            x,
        ) by {}
        assert(mapped(m.mem, cb + 0x08, 8));
    }
}

/// The header that a command buffer is given: its own address, its buffer and its
/// size, and zeros in the sixteen bytes behind them where they are no part of the
/// caller's frame.
pub proof fn law_written_header(m: Machine, cb: u64, buffer: u64, size: u64)
    ensures
        mapped(m.mem, cb as int, 0x28) ==> write_cb(m, cb, buffer, size).1,
        write_cb(m, cb, buffer, size).1 ==> ({
            let after = write_cb(m, cb, buffer, size).0;
            let framed = m.frame.low < m.frame.high && cb + 0x28 > m.frame.low && cb + 0x18
                < m.frame.high;
            &&& load_u64(after.mem, cb as int) == Some(cb)
            &&& load_u64(after.mem, cb + 0x08) == Some(buffer)
            &&& load_u64(after.mem, cb + 0x10) == Some(size)
            &&& !framed ==> forall|i: int| 0 <= i < 16 ==> #[trigger] after.mem[cb + 0x18 + i] == 0
            &&& framed ==> kept(m.mem, after.mem, cb + 0x18, 16)
            &&& changed_only(m.mem, after.mem, cb as int, 0x28)
        }),
{
    let zeros = Seq::new(16, |i: int| 0u8);
    let m1 = put_u64(m.mem, cb as int, cb).0;
    let m2 = put_u64(m1, cb + 0x08, buffer).0;
    let m3 = put_u64(m2, cb + 0x10, size).0;
    let (m4, ok) = clear_aux(m.with_mem(m3), cb);
    lemma_put_u64_keeps(m.mem, cb as int, cb, cb + 0x08, 8);
    lemma_put_u64_keeps(m.mem, cb as int, cb, cb + 0x10, 8);
    lemma_put_u64_keeps(m.mem, cb as int, cb, cb + 0x18, 16);
    lemma_put_u64_keeps(m1, cb + 0x08, buffer, cb + 0x10, 8);
    lemma_put_u64_keeps(m1, cb + 0x08, buffer, cb + 0x18, 16);
    lemma_put_u64_keeps(m2, cb + 0x10, size, cb + 0x18, 16);
    if mapped(m.mem, cb as int, 0x28) {
        lemma_part_mapped(m.mem, cb as int, 0x28, cb as int, 8);
        lemma_part_mapped(m.mem, cb as int, 0x28, cb + 0x08, 8);
        lemma_part_mapped(m.mem, cb as int, 0x28, cb + 0x10, 8);
        lemma_part_mapped(m.mem, cb as int, 0x28, cb + 0x18, 16);
    }
    if write_cb(m, cb, buffer, size).1 {
        law_read_back_u64(m.mem, cb as int, cb);
        law_read_back_u64(m1, cb + 0x08, buffer);
        law_read_back_u64(m2, cb + 0x10, size);
        lemma_put_u64_keeps_rest(m1, cb + 0x08, buffer, cb as int, 8);
        lemma_kept_reads(m1, m2, cb as int, 8, cb as int, 8);
        lemma_put_u64_keeps_rest(m2, cb + 0x10, size, cb as int, 0x10);
        lemma_kept_reads(m2, m3, cb as int, 0x10, cb as int, 8);
        lemma_kept_reads(m2, m3, cb as int, 0x10, cb + 0x08, 8);
        lemma_put_keeps(m3, cb + 0x18, zeros, cb as int, 0x18);
        assert(kept(m3, m4, cb as int, 0x18));
        lemma_kept_reads(m3, m4, cb as int, 0x18, cb as int, 8);
        lemma_kept_reads(m3, m4, cb as int, 0x18, cb + 0x08, 8);
        lemma_kept_reads(m3, m4, cb as int, 0x18, cb + 0x10, 8);
        lemma_three_puts_keep(m.mem, cb, buffer, size, cb + 0x18, 16);
        assert forall|x: int| m.mem.dom().contains(x) && !(cb <= x < cb + 0x28) implies
            #[trigger] m4[x] == m.mem[x] by {
            lemma_three_puts_keep(m.mem, cb, buffer, size, x, 1);
            lemma_put_keeps(m3, cb + 0x18, zeros, x, 1);
            assert(m3[x] == m.mem[x]);
        }
        let framed = m.frame.low < m.frame.high && cb + 0x28 > m.frame.low && cb + 0x18
            < m.frame.high;
        if !framed {
            assert forall|i: int| 0 <= i < 16 implies #[trigger] m4[cb + 0x18 + i] == 0 by {
                assert(mapped(m3, cb + 0x18, 16));
                assert(m3.dom().contains(cb + 0x18 + i));
            }
        }
    }
}

proof fn lemma_part_mapped(m: Mem, a: int, n: nat, x: int, k: nat)
    requires
        mapped(m, a, n),
        a <= x,
        x + k <= a + n,
    ensures
        mapped(m, x, k),
{
    assert forall|y: int| x <= y < x + k implies #[trigger] m.dom().contains(y) by {}
}

proof fn lemma_three_puts_keep(m: Mem, cb: u64, buffer: u64, size: u64, x: int, n: int)
    requires
        apart(cb as int, 0x18, x, n),
    ensures
        ({
            let m1 = put_u64(m, cb as int, cb).0;
            let m2 = put_u64(m1, cb + 0x08, buffer).0;
            kept(m, put_u64(m2, cb + 0x10, size).0, x, n)
        }),
{
    let m1 = put_u64(m, cb as int, cb).0;
    let m2 = put_u64(m1, cb + 0x08, buffer).0;
    lemma_put_u64_keeps_rest(m, cb as int, cb, x, n);
    lemma_put_u64_keeps_rest(m1, cb + 0x08, buffer, x, n);
    lemma_put_u64_keeps_rest(m2, cb + 0x10, size, x, n);
}

/// A command buffer that is constructed names itself, its buffer and its size, and
/// is empty: nothing is written, nothing counted, no flag set, no stream begun.
pub proof fn law_constructed(m: Machine, a: Seq<u64>)
    ensures
        ({
            let (after, r) = returned(AmprExport::Ctor, m, a);
            let cb = arg(a, 0);
            &&& cb == 0 ==> r == 0 && after == m
            &&& cb != 0 && mapped(m.mem, cb as int, 0x28) ==> {
                &&& r == cb
                &&& load_u64(after.mem, cb as int) == Some(cb)
                &&& load_u64(after.mem, cb + 0x08) == Some(arg(a, 1))
                &&& load_u64(after.mem, cb + 0x10) == Some(arg(a, 2))
                &&& changed_only(m.mem, after.mem, cb as int, 0x28)
                &&& m.frame.low >= m.frame.high ==> forall|i: int|
                    0 <= i < 16 ==> #[trigger] after.mem[cb + 0x18 + i] == 0
                &&& returned(AmprExport::GetBufferBaseAddress, after, a).1 == arg(a, 1)
                &&& returned(AmprExport::GetSize, after, a).1 == arg(a, 2)
                &&& returned(AmprExport::GetCurrentOffset, after, a).1 == 0
                &&& returned(AmprExport::GetNumCommands, after, a).1 == 0
                &&& returned(AmprExport::GetTypeFlags, after, a).1 == 0
                &&& !after.ampr.streams.dom().contains(cb)
            }
        }),
{
    law_written_header(m, arg(a, 0), arg(a, 1), arg(a, 2));
}

/// A command buffer that is reset keeps its buffer, size and flags and is empty
/// again; one that is destroyed has nothing on record.
pub proof fn law_reset_and_destroyed(m: Machine, a: Seq<u64>)
    ensures
        ({
            let (after, code) = returned(AmprExport::Reset, m, a);
            let cb = arg(a, 0);
            &&& cb == 0 ==> code == 0x8002_0016 && after == m
            &&& cb != 0 && mapped(m.mem, cb as int, 0x28) ==> {
                &&& code == 0
                &&& load_u64(after.mem, cb as int) == Some(cb)
                &&& load_u64(after.mem, cb + 0x08) == load_u64(m.mem, cb + 0x08)
                &&& load_u64(after.mem, cb + 0x10) == load_u64(m.mem, cb + 0x10)
                &&& returned(AmprExport::GetCurrentOffset, after, a).1 == 0
                &&& returned(AmprExport::GetNumCommands, after, a).1 == 0
                &&& returned(AmprExport::GetTypeFlags, after, a).1 == returned(
                    AmprExport::GetTypeFlags,
                    m,
                    a,
                ).1
                &&& !after.ampr.streams.dom().contains(cb)
            }
        }),
        ({
            let (after, r) = returned(AmprExport::Dtor, m, a);
            &&& r == 0
            &&& after.mem == m.mem
            &&& arg(a, 0) != 0 ==> {
                &&& written(after, arg(a, 0)) == 0
                &&& type_flags(after, arg(a, 0)) == 0
                &&& returned(AmprExport::GetNumCommands, after, a).1 == 0x8002_000E
                &&& !after.ampr.streams.dom().contains(arg(a, 0))
            }
        }),
{
    let cb = arg(a, 0);
    if mapped(m.mem, cb as int, 0x28) {
        lemma_part_mapped(m.mem, cb as int, 0x28, cb + 0x08, 8);
        lemma_part_mapped(m.mem, cb as int, 0x28, cb + 0x10, 8);
    }
    law_written_header(m, cb, load_u64(m.mem, cb + 0x08)->0, load_u64(m.mem, cb + 0x10)->0);
}

/// The text of a marker: what stands at `message`, up to its first zero, or nothing.
pub open spec fn text_of(m: Mem, message: u64) -> Seq<u8> {
    if message != 0 && cstring(m, message as int, 0x400_0000) is Some {
        cstring(m, message as int, 0x400_0000)->0
    } else {
        Seq::empty()
    }
}

/// A marker of `head` bytes before its text: its record has eight bytes of its own,
/// those, the text and the zero behind it if there is a message at all, rounded up to
/// four, and holds the text from its ninth byte on.
pub open spec fn marks(m: Machine, cb: u64, message: u64, head: int, r: (Machine, u64)) -> bool {
    let text = text_of(m.mem, message);
    let payload = head + (if message == 0 {
        0
    } else {
        text.len() as int + 1
    });
    let total = 8 + (payload + 3) / 4 * 4;
    &&& cb == 0 ==> r == (m, 0x8002_0016u64)
    &&& cb != 0 && total <= 0x400_0000 ==> appends(m, cb, r, total)
    &&& cb != 0 && total > 0x400_0000 ==> r == (m, 0x8002_000Eu64)
    &&& r.1 == 0 ==> {
        &&& load_u32(r.0.mem, record_at(m, cb)) == Some(4u32)
        &&& load_u32(r.0.mem, record_at(m, cb) + 4) == Some(total as u32)
        &&& forall|i: int|
            0 <= i < total - 8 ==> #[trigger] r.0.mem[record_at(m, cb) + 8 + i] == (if i
                < text.len() {
                text[i]
            } else {
                0
            })
    }
}

proof fn lemma_marker(m: Machine, cb: u64, message: u64, with_color: bool)
    ensures
        ({
            let head: int = if with_color {
                8
            } else {
                4
            };
            marks(m, cb, message, head, append_marker(m, cb, message, with_color))
        }),
{
    let total = marker_size(m.mem, message, with_color);
    let text = marker_text(m.mem, message);
    assert(text == text_of(m.mem, message));
    lemma_text_is_short(m.mem, message as int, 0x400_0000);
    law_skip_record(m, cb, total, text);
}

proof fn lemma_text_is_short(m: Mem, at: int, max: nat)
    ensures
        cstring(m, at, max) is Some ==> cstring(m, at, max)->0.len() <= max,
    decreases max,
{
    if max > 0 {
        lemma_text_is_short(m, at + 1, (max - 1) as nat);
    }
}

/// The markers of a command buffer: a plain one has four bytes before its text, a
/// coloured one eight; one that is constructed takes its message from the third
/// argument and is coloured if the fourth is not zero. Their sizes are measured from
/// the message alone.
pub proof fn law_marker_records(m: Machine, a: Seq<u64>)
    ensures
        ({
            let (after, reply) = effect(AmprExport::Marker, m, a);
            reply is Return && marks(m, arg(a, 0), arg(a, 1), 4, (after, reply->Return_0))
        }),
        ({
            let (after, reply) = effect(AmprExport::MarkerWithColor, m, a);
            reply is Return && marks(m, arg(a, 0), arg(a, 1), 8, (after, reply->Return_0))
        }),
        ({
            let (after, reply) = effect(AmprExport::ConstructMarker, m, a);
            let head: int = if arg(a, 3) != 0 {
                8
            } else {
                4
            };
            reply is Return && marks(m, arg(a, 0), arg(a, 2), head, (after, reply->Return_0))
        }),
        ({
            let text: int = if arg(a, 0) == 0 {
                0
            } else {
                text_of(m.mem, arg(a, 0)).len() as int + 1
            };
            &&& effect(AmprExport::MeasureMarker, m, a) == (
                m,
                Reply::Return((8 + (4 + text + 3) / 4 * 4) as u64),
            )
            &&& effect(AmprExport::MeasureMarkerWithColor, m, a) == (
                m,
                Reply::Return((8 + (8 + text + 3) / 4 * 4) as u64),
            )
        }),
{
    lemma_marker(m, arg(a, 0), arg(a, 1), false);
    lemma_marker(m, arg(a, 0), arg(a, 1), true);
    lemma_marker(m, arg(a, 0), arg(a, 2), arg(a, 3) != 0);
}

/// A skip that is constructed has four bytes and as many more as were asked for,
/// rounded up to four, behind its own eight.
pub proof fn law_constructed_skip(m: Machine, a: Seq<u64>)
    ensures
        ({
            let r = returned(AmprExport::ConstructNop, m, a);
            let total = 8 + (4 + (arg(a, 3) as u32) + 3) / 4 * 4;
            &&& arg(a, 0) == 0 ==> r == (m, 0x8002_0016u64)
            &&& arg(a, 0) != 0 && total <= 0x400_0000 ==> appends(m, arg(a, 0), r, total)
            &&& arg(a, 0) != 0 && total > 0x400_0000 ==> r == (m, 0x8002_000Eu64)
        }),
{
    let total = 8 + (4 + (arg(a, 3) as u32) + 3) / 4 * 4;
    law_skip_record(m, arg(a, 0), total as u64, Seq::empty());
}

/// The measures of records of one size, in bytes.
pub proof fn law_record_sizes(m: Machine, a: Seq<u64>)
    ensures
        effect(AmprExport::ReadFileRecordSize, m, a) == (m, Reply::Return(0x30)),
        effect(AmprExport::KernelEventQueueRecordSize, m, a) == (m, Reply::Return(0x30)),
        effect(AmprExport::WriteAddressRecordSize, m, a) == (m, Reply::Return(0x20)),
        effect(AmprExport::PopMarkerRecordSize, m, a) == (m, Reply::Return(12)),
        effect(AmprExport::WaitRecordSize, m, a) == (m, Reply::Return(0x20)),
        effect(AmprExport::ResetGatherScatterRecordSize, m, a) == (m, Reply::Return(12)),
        effect(AmprExport::MapEndRecordSize, m, a) == (m, Reply::Return(12)),
        ({
            let n = arg(a, 0) as u32;
            let most = if n == 0 {
                1
            } else {
                n as int
            };
            &&& effect(AmprExport::MeasureNop, m, a) == (m, Reply::Return((8 + 4 * most) as u64))
            &&& effect(AmprExport::MeasureNopWithData, m, a) == (
                m,
                Reply::Return((12 + 4 * n) as u64),
            )
        }),
        effect(AmprExport::MeasureMapBegin, m, a) == (
            m,
            Reply::Return(
                if is_window(arg(a, 0), arg(a, 1)) {
                    20
                } else {
                    0x8002_0016
                },
            ),
        ),
        effect(AmprExport::MeasureMapDirectBegin, m, a) == (
            m,
            Reply::Return(
                if is_window(arg(a, 0), arg(a, 2)) && arg(a, 1) % 0x4000 == 0 {
                    24
                } else {
                    0x8002_0016
                },
            ),
        ),
{
}

/// What a command buffer is asked for: its size stands at 0x10 and its buffer at 8; the
/// offset, the count and the type are those of its records. A null command buffer has
/// no type and no buffer, and the other questions refuse it.
pub proof fn law_questions(m: Machine, a: Seq<u64>)
    ensures
        ({
            let cb = arg(a, 0);
            let size = returned(AmprExport::GetSize, m, a);
            let offset = returned(AmprExport::GetCurrentOffset, m, a);
            let count = returned(AmprExport::GetNumCommands, m, a);
            let flags = returned(AmprExport::GetTypeFlags, m, a);
            let base = returned(AmprExport::GetBufferBaseAddress, m, a);
            &&& size.0 == m && offset.0 == m && count.0 == m && flags.0 == m && base.0 == m
            &&& cb == 0 ==> {
                &&& size.1 == 0x8002_0016 && offset.1 == 0x8002_0016 && count.1 == 0x8002_0016
                &&& flags.1 == 0 && base.1 == 0
            }
            &&& cb != 0 ==> {
                &&& load_u64(m.mem, cb + 0x10) is Some ==> Some(size.1) == load_u64(
                    m.mem,
                    cb + 0x10,
                )
                &&& load_u64(m.mem, cb + 0x10) is None ==> size.1 == 0x8002_000E
                &&& load_u64(m.mem, cb + 0x08) is Some ==> Some(base.1) == load_u64(
                    m.mem,
                    cb + 0x08,
                )
                &&& load_u64(m.mem, cb + 0x08) is None ==> base.1 == 0
                &&& offset.1 == written(m, cb)
                &&& flags.1 == type_flags(m, cb)
                &&& m.ampr.counts.dom().contains(cb) ==> count.1 == m.ampr.counts[cb]
                &&& !m.ampr.counts.dom().contains(cb) ==> count.1 == 0x8002_000E
            }
        }),
{
}

} // verus!
