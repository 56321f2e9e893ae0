//! What the writer of a register list leaves in the buffer: one packet for each
//! run of consecutive offsets, end to end.
use vstd::prelude::*;
use crate::agc::laws::{
    clear_of_cursor, law_packet_reads_back, lemma_emit_at, lemma_read_registers_len,
};
use crate::agc::packet::{
    emit_at, header, header_dwords, law_header_roundtrip, lo, CB_CURSOR_UP, R_ZERO,
};
use crate::agc::registers::{
    cb_set_registers_direct, emit_runs, law_sort_registers, lemma_run_end, read_registers, run_end,
    run_words, sort_registers, Register,
};
use crate::agc::sizes::registers_direct_size;
use crate::context::{arg, Machine};
use crate::mem::{load, load_u32, load_u64, load_words, mapped, Mem};

verus! {

/// The packets of the runs of `s` from `start` on, end to end.
pub open spec fn stream(s: Seq<Register>, start: int, op: u32) -> Seq<u32>
    decreases s.len() - start,
{
    if start < 0 || start >= s.len() {
        Seq::empty()
    } else {
        let end = run_end(s, start + 1);
        proof {
            lemma_run_end(s, start + 1);
        }
        run_words(s.subrange(start, end), op) + stream(s, end, op)
    }
}

/// How often the offsets of `s` from `start` on do not go up by one.
pub open spec fn breaks(s: Seq<Register>, start: int) -> nat
    decreases s.len() - start,
{
    if start < 0 || start + 1 >= s.len() {
        0
    } else if s[start + 1].0 == s[start].0 + 1 {
        breaks(s, start + 1)
    } else {
        1 + breaks(s, start + 1)
    }
}

/// How many packets a sorted list takes: one, and one more for each break.
pub open spec fn packets(s: Seq<Register>) -> nat {
    if s.len() == 0 {
        0
    } else {
        1 + breaks(s, 0)
    }
}

/// The registers that packets of consecutive values set: packet by packet, each
/// value at the offset that follows the one before.
pub open spec fn settings(words: Seq<u32>) -> Seq<Register>
    decreases words.len(),
{
    if words.len() < 2 || header_dwords(words[0]) > words.len() {
        Seq::empty()
    } else {
        let n = header_dwords(words[0]);
        Seq::new((n - 2) as nat, |k: int| ((words[1] + k) as u32, words[2 + k])) + settings(
            if n < 2 {
                Seq::empty()
            } else {
                words.skip(n)
            },
        )
    }
}

/// Inside a run there is no break, and behind it there is one, unless the list
/// ends.
proof fn lemma_breaks(s: Seq<Register>, end: int)
    requires
        0 < end <= s.len(),
    ensures
        breaks(s, end - 1) == (if run_end(s, end) < s.len() {
            1 + breaks(s, run_end(s, end))
        } else {
            0
        }),
    decreases s.len() - end,
{
    lemma_run_end(s, end);
    if end < s.len() && s[end].0 == s[end - 1].0 + 1 {
        lemma_breaks(s, end + 1);
    }
}

/// The length of the packets: every register, and two DWORDs for each packet.
proof fn lemma_stream_len(s: Seq<Register>, start: int, op: u32)
    requires
        0 <= start < s.len(),
    ensures
        stream(s, start, op).len() == s.len() - start + 2 * (1 + breaks(s, start)),
    decreases s.len() - start,
{
    let end = run_end(s, start + 1);
    lemma_run_end(s, start + 1);
    lemma_breaks(s, start + 1);
    if end < s.len() {
        lemma_stream_len(s, end, op);
    } else {
        assert(stream(s, end, op).len() == 0);
    }
}

/// Two neighbouring parts read as one.
proof fn lemma_words_join(m: Mem, a: int, first: Seq<u32>, second: Seq<u32>)
    requires
        load_words(m, a, first.len()) == Some(first),
        load_words(m, a + 4 * first.len(), second.len()) == Some(second),
    ensures
        load_words(m, a, (first + second).len()) == Some(first + second),
{
    let n = first.len();
    let all = first + second;
    assert forall|x: int| a <= x < a + 4 * all.len() implies #[trigger] m.dom().contains(x) by {
        assert(mapped(m, a, 4 * n));
        assert(mapped(m, a + 4 * n, 4 * second.len()));
    }
    assert forall|i: int| 0 <= i < all.len() implies #[trigger] load_u32(m, a + 4 * i)->0
        == all[i] by {
        if i < n {
            assert(load_words(m, a, n)->0[i] == first[i]);
        } else {
            let j = i - n;
            assert(load_words(m, a + 4 * n, second.len())->0[j] == second[j]);
            assert(a + 4 * n + 4 * j == a + 4 * i);
        }
    }
    assert(load_words(m, a, all.len())->0 =~= all);
}

/// Equal bytes read as equal words.
proof fn lemma_words_same(m: Mem, k: Mem, a: int, n: nat)
    requires
        forall|x: int, c: nat|
            a <= x && x + c <= a + 4 * n ==> #[trigger] load(m, x, c) == load(k, x, c),
        load_words(m, a, n) is Some,
    ensures
        load_words(k, a, n) == load_words(m, a, n),
{
    assert(load(m, a, 4 * n) == load(k, a, 4 * n));
    assert(mapped(k, a, 4 * n));
    assert forall|i: int| 0 <= i < n implies #[trigger] load_u32(k, a + 4 * i) == load_u32(
        m,
        a + 4 * i,
    ) by {
        assert(load(m, a + 4 * i, 4) == load(k, a + 4 * i, 4));
    }
    assert(load_words(k, a, n)->0 =~= load_words(m, a, n)->0);
}

/// What the writer of the runs from `start` on leaves: the cursor behind the
/// packets, the packets from `at` on, and the rest of memory as it was.
proof fn lemma_runs_stand(
    m: Machine,
    cb: u64,
    s: Seq<Register>,
    start: int,
    first: u64,
    op: u32,
    at: u64,
)
    requires
        0 <= start <= s.len() <= 4096,
        first != 0 || start == 0,
        at != 0,
        load_u64(m.mem, cb + CB_CURSOR_UP) == Some(at),
        clear_of_cursor(cb, at as int, 4 * stream(s, start, op).len() as int),
        emit_runs(m, cb, s, start, first, op).1 != 0,
    ensures
        ({
            let r = emit_runs(m, cb, s, start, first, op);
            let words = stream(s, start, op);
            &&& load_u64(r.0.mem, cb + CB_CURSOR_UP) == Some((at + 4 * words.len()) as u64)
            &&& at + 4 * words.len() <= u64::MAX
            &&& words.len() > 0 ==> load_words(r.0.mem, at as int, words.len()) == Some(words)
            &&& forall|x: int, n: nat|
                (x + n <= at || at + 4 * words.len() <= x) && clear_of_cursor(cb, x, n as int)
                    ==> #[trigger] load(r.0.mem, x, n) == load(m.mem, x, n)
            &&& r.1 == if first != 0 {
                first
            } else if start < s.len() {
                at
            } else {
                0
            }
        }),
    decreases s.len() - start,
{
    if start < s.len() {
        let end = run_end(s, start + 1);
        lemma_run_end(s, start + 1);
        let head = run_words(s.subrange(start, end), op);
        let rest = stream(s, end, op);
        let words = stream(s, start, op);
        assert(words == head + rest);
        lemma_emit_at(m, cb, head);
        law_packet_reads_back(m, cb, head);
        match emit_at(m, cb, head) {
            (m1, Some(p)) => {
                assert(p == at);
                assert(clear_of_cursor(cb, at as int, 4 * head.len() as int));
                let next = (at + 4 * head.len()) as u64;
                let first1 = if first == 0 {
                    p
                } else {
                    first
                };
                lemma_runs_stand(m1, cb, s, end, first1, op, next);
                let r = emit_runs(m1, cb, s, end, first1, op);
                assert(r == emit_runs(m, cb, s, start, first, op));
                assert forall|x: int, c: nat|
                    at <= x && x + c <= at + 4 * head.len() implies #[trigger] load(m1.mem, x, c)
                    == load(r.0.mem, x, c) by {
                    assert(clear_of_cursor(cb, x, c as int));
                }
                lemma_words_same(m1.mem, r.0.mem, at as int, head.len());
                if rest.len() == 0 {
                    assert(words =~= head);
                } else {
                    lemma_words_join(r.0.mem, at as int, head, rest);
                }
                assert forall|x: int, n: nat|
                    (x + n <= at || at + 4 * words.len() <= x) && clear_of_cursor(cb, x, n as int)
                    implies #[trigger] load(r.0.mem, x, n) == load(m.mem, x, n) by {
                    assert(load(m1.mem, x, n) == load(m.mem, x, n));
                }
            },
            _ => {},
        }
    }
}

/// A register list becomes one packet for each run of consecutive offsets, one
/// more than there are breaks in the sorted list. The packets stand end to end
/// from the address that was returned, and take exactly the registers and two
/// DWORDs each, which is never more than the reported size. Read one after
/// another they set the sorted list. (A list whose packets would be written over
/// the cursor field, or that starts at address zero, is left out.)
pub proof fn law_register_list_takes_its_runs(m: Machine, a: Seq<u64>, op: u32, q: Seq<u64>)
    requires
        arg(q, 0) == arg(a, 2),
        cb_set_registers_direct(m, a, op).1 != 0,
        load_u64(m.mem, arg(a, 0) + CB_CURSOR_UP) != Some(0u64),
        ({
            let list = read_registers(m.mem, arg(a, 1) as int, lo(arg(a, 2)) as nat)->0;
            clear_of_cursor(
                arg(a, 0),
                load_u64(m.mem, arg(a, 0) + CB_CURSOR_UP)->0 as int,
                4 * stream(sort_registers(list), 0, op).len() as int,
            )
        }),
    ensures
        ({
            let cb = arg(a, 0);
            let count = lo(arg(a, 2));
            let s = sort_registers(read_registers(m.mem, arg(a, 1) as int, count as nat)->0);
            let (after, at) = cb_set_registers_direct(m, a, op);
            let bytes = 4 * (count + 2 * packets(s));
            &&& s.len() == count
            &&& load_u64(m.mem, cb + CB_CURSOR_UP) == Some(at)
            &&& load_u64(after.mem, cb + CB_CURSOR_UP) == Some((at + bytes) as u64)
            &&& at + bytes <= u64::MAX
            &&& bytes <= registers_direct_size(q)
            &&& load_words(after.mem, at as int, (count + 2 * packets(s)) as nat) == Some(
                stream(s, 0, op),
            )
            &&& op <= 0xFF && (forall|i: int| 0 <= i < s.len() ==> (#[trigger] s[i]).0 < 0x1_0000)
                ==> settings(stream(s, 0, op)) == s
        }),
{
    let cb = arg(a, 0);
    let count = lo(arg(a, 2));
    let list = read_registers(m.mem, arg(a, 1) as int, count as nat)->0;
    let s = sort_registers(list);
    lemma_read_registers_len(m.mem, arg(a, 1) as int, count as nat);
    law_sort_registers(list);
    lemma_stream_len(s, 0, op);
    lemma_breaks_bound(s, 0);
    lemma_run_end(s, 1);
    lemma_emit_at(m, cb, run_words(s.subrange(0, run_end(s, 1)), op));
    if op <= 0xFF && (forall|i: int| 0 <= i < s.len() ==> (#[trigger] s[i]).0 < 0x1_0000) {
        law_packets_set_the_list(s, 0, op);
        assert(s.skip(0) =~= s);
    }
    match load_u64(m.mem, cb + CB_CURSOR_UP) {
        Some(at) => {
            lemma_runs_stand(m, cb, s, 0, 0, op, at);
        },
        None => {},
    }
}

/// There are fewer breaks than registers.
proof fn lemma_breaks_bound(s: Seq<Register>, start: int)
    requires
        0 <= start < s.len(),
    ensures
        breaks(s, start) < s.len() - start,
    decreases s.len() - start,
{
    if start + 1 < s.len() {
        lemma_breaks_bound(s, start + 1);
    }
}

/// Offsets go up by one inside a run.
proof fn lemma_run_is_consecutive(s: Seq<Register>, start: int, end: int, k: int)
    requires
        0 <= start < end <= s.len(),
        forall|j: int| start <= j < end ==> #[trigger] s[j].0 == s[start].0 + (j - start),
        start <= k < run_end(s, end),
    ensures
        s[k].0 == s[start].0 + (k - start),
    decreases s.len() - end,
{
    if end < s.len() && s[end].0 == s[end - 1].0 + 1 {
        assert(s[end - 1].0 == s[start].0 + (end - 1 - start));
        lemma_run_is_consecutive(s, start, end + 1, k);
    } else {
        assert(s[k].0 == s[start].0 + (k - start));
    }
}

/// The packets set exactly the registers of the list, in order.
pub proof fn law_packets_set_the_list(s: Seq<Register>, start: int, op: u32)
    requires
        0 <= start <= s.len() <= 4096,
        op <= 0xFF,
        forall|i: int| 0 <= i < s.len() ==> (#[trigger] s[i]).0 < 0x1_0000,
    ensures
        settings(stream(s, start, op)) == s.skip(start),
    decreases s.len() - start,
{
    if start == s.len() {
        assert(s.skip(start) =~= Seq::<Register>::empty());
    } else {
        let end = run_end(s, start + 1);
        lemma_run_end(s, start + 1);
        let run = s.subrange(start, end);
        let head = run_words(run, op);
        let rest = stream(s, end, op);
        let words = stream(s, start, op);
        assert(words == head + rest);
        let n = head.len() as int;
        law_header_roundtrip((run.len() + 2) as u32, op, R_ZERO);
        assert(words[0] == header((run.len() + 2) as u32, op, R_ZERO));
        assert(header_dwords(words[0]) == n);
        assert(words.skip(n) =~= rest);
        let offset = run[0].0;
        assert(offset & 0xFFFF == offset) by (bit_vector)
            requires
                offset < 0x1_0000u32,
        ;
        let here = Seq::new((n - 2) as nat, |k: int| ((words[1] + k) as u32, words[2 + k]));
        assert(here =~= run) by {
            assert forall|k: int| 0 <= k < run.len() implies #[trigger] here[k] == run[k] by {
                lemma_run_is_consecutive(s, start, start + 1, start + k);
                assert(words[2 + k] == head[2 + k]);
                assert(run[k] == s[start + k]);
            }
        }
        law_packets_set_the_list(s, end, op);
        assert(run + s.skip(end) =~= s.skip(start));
    }
}

} // verus!
