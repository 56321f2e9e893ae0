//! Register lists: `(offset, value)` pairs read from guest memory, sorted by
//! offset and written as one packet per run of consecutive offsets.
use vstd::prelude::*;
use crate::agc::data::REGISTER_LIST_MAX;
use crate::agc::packet::{
    emit_at, header, lo, lo32, pm4, try_emit, IT_SET_SH_REG, IT_SET_UCONFIG_REG, R_ZERO,
};
use crate::context::{arg, get_arg, HleContext, Machine};
use crate::mem::{load_u32, Mem};

verus! {

/// A register's offset and value.
pub type Register = (u32, u32);

/// The `n` register pairs at `a`, or `None` when one of them is unreadable.
pub open spec fn read_registers(m: Mem, a: int, n: nat) -> Option<Seq<Register>>
    decreases n,
{
    if n == 0 {
        Some(Seq::empty())
    } else {
        match (
            read_registers(m, a, (n - 1) as nat),
            load_u32(m, a + 8 * (n - 1)),
            load_u32(m, a + 8 * (n - 1) + 4),
        ) {
            (Some(s), Some(offset), Some(value)) => Some(s.push((offset, value))),
            _ => None,
        }
    }
}

/// Put `p` behind every register whose offset is not larger.
pub open spec fn insert_register(s: Seq<Register>, p: Register) -> Seq<Register>
    decreases s.len(),
{
    if s.len() == 0 || s.last().0 <= p.0 {
        s.push(p)
    } else {
        insert_register(s.drop_last(), p).push(s.last())
    }
}

/// The registers in ascending order of offset; equal offsets keep their order.
pub open spec fn sort_registers(s: Seq<Register>) -> Seq<Register>
    decreases s.len(),
{
    if s.len() == 0 {
        s
    } else {
        insert_register(sort_registers(s.drop_last()), s.last())
    }
}

/// Ascending offsets.
pub open spec fn ascending(s: Seq<Register>) -> bool {
    forall|i: int, j: int| 0 <= i <= j < s.len() ==> (#[trigger] s[i]).0 <= (#[trigger] s[j]).0
}

/// The end of the run of consecutive offsets that has been followed up to `end`.
pub open spec fn run_end(s: Seq<Register>, end: int) -> int
    decreases s.len() - end,
{
    if 0 < end < s.len() && s[end].0 == s[end - 1].0 + 1 {
        run_end(s, end + 1)
    } else {
        end
    }
}

/// The packet of one run.
pub open spec fn run_words(run: Seq<Register>, op: u32) -> Seq<u32> {
    seq![header((run.len() + 2) as u32, op, R_ZERO), run[0].0 & 0xFFFF] + Seq::new(
        run.len(),
        |i: int| run[i].1,
    )
}

/// A run ends behind its start and within the list.
pub proof fn lemma_run_end(s: Seq<Register>, end: int)
    requires
        0 < end <= s.len(),
    ensures
        end <= run_end(s, end) <= s.len(),
    decreases s.len() - end,
{
    if end < s.len() && s[end].0 == s[end - 1].0 + 1 {
        lemma_run_end(s, end + 1);
    }
}

/// Write the runs of `s` from `start` on, one packet each. The result is the
/// address of the first packet, or zero when a packet could not be built.
pub open spec fn emit_runs(
    m: Machine,
    cb: u64,
    s: Seq<Register>,
    start: int,
    first: u64,
    op: u32,
) -> (Machine, u64)
    decreases s.len() - start,
{
    if start < 0 || start >= s.len() {
        (m, first)
    } else {
        let end = run_end(s, start + 1);
        proof {
            lemma_run_end(s, start + 1);
        }
        match emit_at(m, cb, run_words(s.subrange(start, end), op)) {
            (m1, None) => (m1, 0),
            (m1, Some(at)) => emit_runs(
                m1,
                cb,
                s,
                end,
                if first == 0 {
                    at
                } else {
                    first
                },
                op,
            ),
        }
    }
}

/// Set the listed registers of one register space.
pub open spec fn cb_set_registers_direct(m: Machine, a: Seq<u64>, op: u32) -> (Machine, u64) {
    let list = arg(a, 1);
    let n = lo(arg(a, 2));
    if n == 0 || arg(a, 0) == 0 || list == 0 || n > REGISTER_LIST_MAX {
        (m, 0)
    } else {
        match read_registers(m.mem, list as int, n as nat) {
            None => (m, 0),
            Some(s) => emit_runs(m, arg(a, 0), sort_registers(s), 0, 0, op),
        }
    }
}

proof fn lemma_read_registers_stops(m: Mem, a: int, k: nat, n: nat)
    requires
        k <= n,
        read_registers(m, a, k) is None,
    ensures
        read_registers(m, a, n) is None,
    decreases n - k,
{
    if k < n {
        lemma_read_registers_stops(m, a, k + 1, n);
    }
}

/// Read a register list.
fn load_registers(ctx: &HleContext, list: u64, n: u32) -> (r: Option<Vec<Register>>)
    requires
        n <= REGISTER_LIST_MAX,
    ensures
        r is Some == read_registers(ctx@.mem, list as int, n as nat) is Some,
        r is Some ==> r->0@ == read_registers(ctx@.mem, list as int, n as nat)->0,
        r is Some ==> r->0@.len() == n,
{
    let mut out: Vec<Register> = Vec::new();
    let mut i: u32 = 0;
    while i < n
        invariant
            i <= n,
            n <= REGISTER_LIST_MAX,
            out@.len() == i,
            read_registers(ctx@.mem, list as int, i as nat) == Some(out@),
        decreases n - i,
    {
        proof {
            if read_registers(ctx@.mem, list as int, (i + 1) as nat) is None {
                lemma_read_registers_stops(ctx@.mem, list as int, (i + 1) as nat, n as nat);
            }
        }
        match (
            ctx.mem.read_u32(list, 8 * (i as u64)),
            ctx.mem.read_u32(list, 8 * (i as u64) + 4),
        ) {
            (Some(offset), Some(value)) => {
                out.push((offset, value));
            },
            _ => {
                return None;
            },
        }
        i += 1;
    }
    Some(out)
}

/// Inserting from the right end down to position `k` is inserting into the
/// prefix of length `k` and keeping the rest.
proof fn lemma_insert_prefix(s: Seq<Register>, p: Register, k: int)
    requires
        0 <= k <= s.len(),
        forall|j: int| k <= j < s.len() ==> (#[trigger] s[j]).0 > p.0,
        k > 0 ==> s[k - 1].0 <= p.0,
    ensures
        insert_register(s, p) =~= s.insert(k, p),
    decreases s.len() - k,
{
    if k < s.len() {
        assert(s[s.len() - 1].0 > p.0);
        let t = s.drop_last();
        assert forall|j: int| k <= j < t.len() implies (#[trigger] t[j]).0 > p.0 by {
            assert(t[j] == s[j]);
        }
        if k > 0 {
            assert(t[k - 1] == s[k - 1]);
        }
        lemma_insert_prefix(t, p, k);
        assert(t.insert(k, p).push(s.last()) =~= s.insert(k, p));
    } else {
        assert(s.push(p) =~= s.insert(k, p));
    }
}

/// Sort a register list by offset, keeping the order of equal offsets.
fn sort_by_offset(list: &Vec<Register>) -> (r: Vec<Register>)
    ensures
        r@ == sort_registers(list@),
        r@.len() == list@.len(),
{
    let mut out: Vec<Register> = Vec::new();
    let mut i: usize = 0;
    assert(list@.take(0) =~= Seq::<Register>::empty());
    while i < list.len()
        invariant
            i <= list@.len(),
            out@.len() == i,
            out@ == sort_registers(list@.take(i as int)),
        decreases list@.len() - i,
    {
        let p: Register = list[i];
        let mut k: usize = out.len();
        while k > 0 && out[k - 1].0 > p.0
            invariant
                k <= out@.len(),
                forall|j: int| k <= j < out@.len() ==> (#[trigger] out@[j]).0 > p.0,
            decreases k,
        {
            k -= 1;
        }
        proof {
            lemma_insert_prefix(out@, p, k as int);
            assert(list@.take(i + 1).drop_last() =~= list@.take(i as int));
            assert(list@.take(i + 1).last() == p);
        }
        out.insert(k, p);
        i += 1;
    }
    assert(list@.take(i as int) =~= list@);
    out
}

/// Build the packet of the run `list[start..end]`.
fn run_packet(list: &Vec<Register>, start: usize, end: usize, op: u32) -> (r: Vec<u32>)
    requires
        start < end <= list@.len() <= REGISTER_LIST_MAX,
    ensures
        r@ == run_words(list@.subrange(start as int, end as int), op),
{
    let ghost run = list@.subrange(start as int, end as int);
    let mut words: Vec<u32> = Vec::new();
    words.push(pm4((end - start + 2) as u32, op, R_ZERO));
    words.push(list[start].0 & 0xFFFF);
    let mut i: usize = start;
    while i < end
        invariant
            start <= i <= end <= list@.len() <= REGISTER_LIST_MAX,
            start < end,
            run == list@.subrange(start as int, end as int),
            words@ =~= seq![header((run.len() + 2) as u32, op, R_ZERO), run[0].0 & 0xFFFF]
                + Seq::new((i - start) as nat, |j: int| run[j].1),
        decreases end - i,
    {
        assert(run[i - start] == list@[i as int]);
        words.push(list[i].1);
        i += 1;
    }
    words
}

/// Write the listed registers of the space `op` as one packet per run.
pub fn cb_set_registers_direct_runs(ctx: &mut HleContext, args: &[u64], op: u32) -> (r: u64)
    ensures
        final(ctx)@ == cb_set_registers_direct(old(ctx)@, args@, op).0,
        r == cb_set_registers_direct(old(ctx)@, args@, op).1,
{
    let cb: u64 = get_arg(args, 0);
    let list: u64 = get_arg(args, 1);
    let n: u32 = lo32(get_arg(args, 2));
    if n == 0 || cb == 0 || list == 0 || n as u64 > REGISTER_LIST_MAX {
        return 0;
    }
    let unsorted = match load_registers(ctx, list, n) {
        Some(s) => s,
        None => {
            return 0;
        },
    };
    let s = sort_by_offset(&unsorted);
    let ghost whole = emit_runs(ctx@, cb, s@, 0, 0, op);
    let mut first: u64 = 0;
    let mut start: usize = 0;
    while start < s.len()
        invariant
            start <= s@.len() <= REGISTER_LIST_MAX,
            whole == emit_runs(ctx@, cb, s@, start as int, first, op),
            whole == cb_set_registers_direct(old(ctx)@, args@, op),
        decreases s@.len() - start,
    {
        let mut end: usize = start + 1;
        while end < s.len() && s[end - 1].0 < u32::MAX && s[end].0 == s[end - 1].0 + 1
            invariant
                start < end <= s@.len(),
                run_end(s@, end as int) == run_end(s@, start + 1),
            decreases s@.len() - end,
        {
            end += 1;
        }
        proof {
            lemma_run_end(s@, start + 1);
            lemma_run_end(s@, end as int);
        }
        let words = run_packet(&s, start, end, op);
        match try_emit(ctx, cb, words.as_slice()) {
            None => {
                return 0;
            },
            Some(at) => {
                if first == 0 {
                    first = at;
                }
            },
        }
        start = end;
    }
    first
}

/// `sceAgcCbSetShRegistersDirect(cb, registers, count)`.
pub fn hle_cb_set_sh_registers_direct(ctx: &mut HleContext, args: &[u64]) -> (r: u64)
    ensures
        final(ctx)@ == cb_set_registers_direct(old(ctx)@, args@, IT_SET_SH_REG).0,
        r == cb_set_registers_direct(old(ctx)@, args@, IT_SET_SH_REG).1,
{
    cb_set_registers_direct_runs(ctx, args, IT_SET_SH_REG)
}

/// `sceAgcCbSetUcRegistersDirect(cb, registers, registerCount)`.
pub fn hle_cb_set_uc_registers_direct(ctx: &mut HleContext, args: &[u64]) -> (r: u64)
    ensures
        final(ctx)@ == cb_set_registers_direct(old(ctx)@, args@, IT_SET_UCONFIG_REG).0,
        r == cb_set_registers_direct(old(ctx)@, args@, IT_SET_UCONFIG_REG).1,
{
    cb_set_registers_direct_runs(ctx, args, IT_SET_UCONFIG_REG)
}

proof fn lemma_insert_register(s: Seq<Register>, p: Register)
    requires
        ascending(s),
    ensures
        ascending(insert_register(s, p)),
        insert_register(s, p).to_multiset() =~= s.to_multiset().insert(p),
        insert_register(s, p).len() == s.len() + 1,
        forall|x: Register|
            insert_register(s, p).contains(x) ==> s.contains(x) || x == p,
    decreases s.len(),
{
    broadcast use vstd::seq_lib::group_to_multiset_ensures;

    if s.len() == 0 || s.last().0 <= p.0 {
        assert forall|i: int, j: int| 0 <= i <= j < s.push(p).len() implies (
        #[trigger] s.push(p)[i]).0 <= (#[trigger] s.push(p)[j]).0 by {
            if j == s.len() && i < s.len() {
                assert(s[i].0 <= s[s.len() - 1].0);
            }
        }
        assert forall|x: Register| s.push(p).contains(x) implies s.contains(x) || x == p by {
            let i = choose|i: int| 0 <= i < s.push(p).len() && s.push(p)[i] == x;
            if i < s.len() {
                assert(s[i] == x);
            }
        }
    } else {
        let t = s.drop_last();
        assert(ascending(t)) by {
            assert forall|i: int, j: int| 0 <= i <= j < t.len() implies (#[trigger] t[i]).0 <= (
            #[trigger] t[j]).0 by {
                assert(t[i] == s[i] && t[j] == s[j]);
            }
        }
        lemma_insert_register(t, p);
        let u = insert_register(t, p);
        assert(t.push(s.last()) =~= s);
        assert forall|i: int, j: int| 0 <= i <= j < u.push(s.last()).len() implies (
        #[trigger] u.push(s.last())[i]).0 <= (#[trigger] u.push(s.last())[j]).0 by {
            if j == u.len() && i < u.len() {
                assert(insert_register(t, p).contains(u[i]));
                if u[i] != p {
                    assert(t.contains(u[i]));
                    let k = choose|k: int| 0 <= k < t.len() && t[k] == u[i];
                    assert(s[k].0 <= s[s.len() - 1].0);
                }
            }
        }
        assert forall|x: Register| u.push(s.last()).contains(x) implies s.contains(x) || x
            == p by {
            let i = choose|i: int| 0 <= i < u.push(s.last()).len() && u.push(s.last())[i] == x;
            if i < u.len() {
                assert(u[i] == x);
                assert(insert_register(t, p).contains(x));
                if x != p {
                    assert(t.contains(x));
                    let k = choose|k: int| 0 <= k < t.len() && t[k] == x;
                    assert(s[k] == x);
                }
            } else {
                assert(s[s.len() - 1] == x);
            }
        }
    }
}

/// Sorting a register list keeps its registers and puts their offsets in
/// ascending order.
pub proof fn law_sort_registers(s: Seq<Register>)
    ensures
        ascending(sort_registers(s)),
        sort_registers(s).to_multiset() =~= s.to_multiset(),
        sort_registers(s).len() == s.len(),
    decreases s.len(),
{
    broadcast use vstd::seq_lib::group_to_multiset_ensures;

    if s.len() > 0 {
        law_sort_registers(s.drop_last());
        lemma_insert_register(sort_registers(s.drop_last()), s.last());
        assert(s.drop_last().push(s.last()) =~= s);
    }
}

/// The registers of `s` at one offset, in order.
pub open spec fn at_offset(s: Seq<Register>, offset: u32) -> Seq<Register> {
    s.filter(|p: Register| p.0 == offset)
}

proof fn lemma_push_at_offset(s: Seq<Register>, p: Register, offset: u32)
    ensures
        at_offset(s.push(p), offset) == if p.0 == offset {
            at_offset(s, offset).push(p)
        } else {
            at_offset(s, offset)
        },
{
    reveal(Seq::filter);
    assert(s.push(p).drop_last() =~= s);
}

proof fn lemma_insert_at_offset(s: Seq<Register>, p: Register, offset: u32)
    ensures
        at_offset(insert_register(s, p), offset) == at_offset(s.push(p), offset),
    decreases s.len(),
{
    if s.len() > 0 && s.last().0 > p.0 {
        let t = s.drop_last();
        lemma_insert_at_offset(t, p, offset);
        lemma_push_at_offset(t, p, offset);
        lemma_push_at_offset(insert_register(t, p), s.last(), offset);
        lemma_push_at_offset(s, p, offset);
        lemma_push_at_offset(t, s.last(), offset);
        assert(t.push(s.last()) =~= s);
    }
}

/// Sorting a register list keeps the order of the writes to each register.
pub proof fn law_sort_registers_stable(s: Seq<Register>, offset: u32)
    ensures
        at_offset(sort_registers(s), offset) == at_offset(s, offset),
    decreases s.len(),
{
    if s.len() > 0 {
        let t = s.drop_last();
        law_sort_registers_stable(t, offset);
        lemma_insert_at_offset(sort_registers(t), s.last(), offset);
        lemma_push_at_offset(sort_registers(t), s.last(), offset);
        lemma_push_at_offset(t, s.last(), offset);
        assert(t.push(s.last()) =~= s);
    }
}

} // verus!
