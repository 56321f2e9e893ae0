//! Register defaults: the object graph that titles walk to reset registers,
//! laid out as one image in guest memory.
//!
//! The host places the image. [`register_defaults_base`] asks for room,
//! [`defaults_allocated`] takes the address and fills it.
use vstd::prelude::*;
use crate::agc::packet::{hi, hi32, lo, lo32};
use crate::agc::reg_defaults::{
    CX_REG_INFO1, CX_REG_INFO2, SH_REG_INFO1, SH_REG_INFO2, UC_REG_INFO1, UC_REG_INFO2,
};
use crate::context::{arg, get_arg, AgcState, HleContext, Machine};
use crate::mem::{bytes_of, law_words_read_back, load_words, put, to_bytes};

pub mod walks;

verus! {

/// The bytes of one set's header.
pub const REG_DEFAULTS_HEADER_BYTES: u64 = 0x40;

/// Where a header keeps its number of types.
pub const REG_DEFAULTS_COUNT_OFFSET: u64 = 0x38;

/// The DWORDs of an entry: its type and its register slots.
pub const REG_INFO_ENTRY_DWORDS: u64 = 33;

/// An entry: a type and its registers.
pub struct DefaultEntry {
    pub type_hash: u32,
    pub registers: Vec<(u32, u32)>,
}

/// The view of an entry.
pub struct Entry {
    pub type_hash: u32,
    pub registers: Seq<(u32, u32)>,
}

impl View for DefaultEntry {
    type V = Entry;

    open spec fn view(&self) -> Entry {
        Entry { type_hash: self.type_hash, registers: self.registers@ }
    }
}

/// The entries that rows of (type, offset, value) stand for: neighbouring rows
/// of one type form an entry.
pub open spec fn entries(rows: Seq<(u32, u32, u32)>) -> Seq<Entry>
    decreases rows.len(),
{
    if rows.len() == 0 {
        Seq::empty()
    } else {
        let before = entries(rows.drop_last());
        let (type_hash, offset, value) = rows.last();
        if before.len() > 0 && before.last().type_hash == type_hash {
            before.drop_last().push(
                Entry { type_hash, registers: before.last().registers.push((offset, value)) },
            )
        } else {
            before.push(Entry { type_hash, registers: seq![(offset, value)] })
        }
    }
}

/// The view of a list of entries.
pub open spec fn entries_view(v: Seq<DefaultEntry>) -> Seq<Entry> {
    v.map_values(|e: DefaultEntry| e@)
}

/// Group rows into entries.
fn group_rows(rows: &[(u32, u32, u32)]) -> (r: Vec<DefaultEntry>)
    ensures
        entries_view(r@) == entries(rows@),
        r@.len() <= rows@.len(),
        forall|k: int| 0 <= k < r@.len() ==> (#[trigger] r@[k]).registers@.len() <= rows@.len(),
{
    let mut out: Vec<DefaultEntry> = Vec::new();
    let mut i: usize = 0;
    assert(rows@.take(0) =~= Seq::<(u32, u32, u32)>::empty());
    assert(entries_view(out@) =~= Seq::<Entry>::empty());
    while i < rows.len()
        invariant
            i <= rows@.len(),
            out@.len() <= i,
            forall|k: int| 0 <= k < out@.len() ==> (#[trigger] out@[k]).registers@.len() <= i,
            entries_view(out@) == entries(rows@.take(i as int)),
        decreases rows@.len() - i,
    {
        let (type_hash, offset, value) = rows[i];
        let ghost before = out@;
        proof {
            assert(rows@.take(i + 1).drop_last() =~= rows@.take(i as int));
            assert(rows@.take(i + 1).last() == rows@[i as int]);
        }
        let n: usize = out.len();
        if n > 0 && out[n - 1].type_hash == type_hash {
            match out.pop() {
                Some(mut e) => {
                    let ghost was = e@;
                    e.registers.push((offset, value));
                    out.push(e);
                    proof {
                        let grown = Entry {
                            type_hash,
                            registers: was.registers.push((offset, value)),
                        };
                        assert(entries_view(out@) =~= entries_view(before).drop_last().push(grown));
                    }
                },
                None => {},
            }
        } else {
            let registers: Vec<(u32, u32)> = vec![(offset, value)];
            assert(registers@ =~= seq![(offset, value)]);
            out.push(DefaultEntry { type_hash, registers });
            assert(entries_view(out@) =~= entries_view(before).push(
                Entry { type_hash, registers: seq![(offset, value)] },
            ));
        }
        i += 1;
    }
    assert(rows@.take(i as int) =~= rows@);
    out
}

/// The six tables: context, shader and UCONFIG registers of the public set, and
/// of the internal set.
pub open spec fn tables() -> Seq<Seq<Entry>> {
    seq![
        entries(CX_REG_INFO1@),
        entries(SH_REG_INFO1@),
        entries(UC_REG_INFO1@),
        entries(CX_REG_INFO2@),
        entries(SH_REG_INFO2@),
        entries(UC_REG_INFO2@),
    ]
}

/// The view of a list of tables.
pub open spec fn tables_view(v: Seq<Vec<DefaultEntry>>) -> Seq<Seq<Entry>> {
    v.map_values(|t: Vec<DefaultEntry>| entries_view(t@))
}

/// Build the six tables.
fn build_tables() -> (r: Vec<Vec<DefaultEntry>>)
    ensures
        tables_view(r@) == tables(),
        r@.len() == 6,
        forall|i: int| 0 <= i < 6 ==> (#[trigger] r@[i])@.len() <= 140,
        forall|i: int, k: int|
            0 <= i < 6 && 0 <= k < r@[i]@.len() ==> (#[trigger] r@[i]@[k]).registers@.len() <= 140,
{
    let cx1: [(u32, u32, u32); 140] = CX_REG_INFO1;
    let sh1: [(u32, u32, u32); 39] = SH_REG_INFO1;
    let uc1: [(u32, u32, u32); 26] = UC_REG_INFO1;
    let cx2: [(u32, u32, u32); 4] = CX_REG_INFO2;
    let sh2: [(u32, u32, u32); 15] = SH_REG_INFO2;
    let uc2: [(u32, u32, u32); 3] = UC_REG_INFO2;
    let r: Vec<Vec<DefaultEntry>> = vec![
        group_rows(&cx1),
        group_rows(&sh1),
        group_rows(&uc1),
        group_rows(&cx2),
        group_rows(&sh2),
        group_rows(&uc2),
    ];
    assert(tables_view(r@) =~= tables());
    r
}

/// The total length of the first `k` lists.
pub open spec fn total<T>(lists: Seq<Seq<T>>, k: int) -> int
    decreases k,
{
    if k <= 0 {
        0
    } else {
        total(lists, k - 1) + lists[k - 1].len()
    }
}

/// The first `k` lists laid end to end, each written out by `f`.
pub open spec fn flat<T>(lists: Seq<Seq<T>>, f: spec_fn(int, int) -> Seq<u32>, k: int) -> Seq<u32>
    decreases k,
{
    if k <= 0 {
        Seq::empty()
    } else {
        flat(lists, f, k - 1) + run_of(f, k - 1, lists[k - 1].len() as int)
    }
}

/// The first `n` elements of list `i`, written out by `f`.
pub open spec fn run_of(f: spec_fn(int, int) -> Seq<u32>, i: int, n: int) -> Seq<u32>
    decreases n,
{
    if n <= 0 {
        Seq::empty()
    } else {
        run_of(f, i, n - 1) + f(i, n - 1)
    }
}

/// A 64-bit value as two DWORDs.
pub open spec fn quad(v: u64) -> Seq<u32> {
    seq![lo(v), hi(v)]
}

/// The address `words` DWORDs behind `base`, modulo 2^64.
pub open spec fn word_address(base: u64, words: int) -> u64 {
    base.wrapping_add((4 * words) as u64)
}

/// A set's header: four table addresses, four register counts, the address of
/// the types, and their number.
pub open spec fn header_words(p: Seq<u64>, counts: Seq<u32>, types: u64, n: u32) -> Seq<u32> {
    seq![
        lo(p[0]),
        hi(p[0]),
        lo(p[1]),
        hi(p[1]),
        lo(p[2]),
        hi(p[2]),
        lo(p[3]),
        hi(p[3]),
        counts[0],
        counts[1],
        counts[2],
        counts[3],
        lo(types),
        hi(types),
        n,
        0u32,
    ]
}

/// An entry in the image: its type, then its registers in 16 slots.
pub open spec fn entry_words(e: Entry) -> Seq<u32> {
    Seq::new(
        REG_INFO_ENTRY_DWORDS as nat,
        |k: int|
            if k == 0 {
                e.type_hash
            } else if (k - 1) / 2 >= e.registers.len() {
                0
            } else if (k - 1) % 2 == 0 {
                e.registers[(k - 1) / 2].0
            } else {
                e.registers[(k - 1) / 2].1
            },
    )
}

/// The registers that a table's entries list.
pub open spec fn register_count(t: Seq<Entry>, n: int) -> int
    decreases n,
{
    if n <= 0 {
        0
    } else {
        register_count(t, n - 1) + t[n - 1].registers.len()
    }
}

/// Where the entries of table `i` start, in DWORDs.
pub open spec fn info_at(ts: Seq<Seq<Entry>>, i: int) -> int {
    32 + REG_INFO_ENTRY_DWORDS * total(ts, i)
}

/// Where the pointer tables start: behind the entries, 8-byte aligned.
pub open spec fn pointers_at(ts: Seq<Seq<Entry>>) -> int {
    info_at(ts, 6) + info_at(ts, 6) % 2
}

/// Where the type triples start.
pub open spec fn triples_at(ts: Seq<Seq<Entry>>) -> int {
    pointers_at(ts) + 2 * total(ts, 6)
}

/// The header of set `s`: three pointer tables, with the fourth left null.
pub open spec fn set_header(ts: Seq<Seq<Entry>>, base: u64, s: int) -> Seq<u32> {
    let i = 3 * s;
    header_words(
        seq![
            word_address(base, pointers_at(ts) + 2 * total(ts, i)),
            word_address(base, pointers_at(ts) + 2 * total(ts, i + 1)),
            word_address(base, pointers_at(ts) + 2 * total(ts, i + 2)),
            0u64,
        ],
        seq![
            register_count(ts[i], ts[i].len() as int) as u32,
            register_count(ts[i + 1], ts[i + 1].len() as int) as u32,
            register_count(ts[i + 2], ts[i + 2].len() as int) as u32,
            0u32,
        ],
        word_address(base, triples_at(ts) + 3 * total(ts, i)),
        (total(ts, i + 3) - total(ts, i)) as u32,
    )
}

/// How entry `j` of table `i` is written.
pub open spec fn entry_writer(ts: Seq<Seq<Entry>>) -> spec_fn(int, int) -> Seq<u32> {
    |i: int, j: int| entry_words(ts[i][j])
}

/// How the pointer to the registers of entry `j` of table `i` is written.
pub open spec fn pointer_writer(ts: Seq<Seq<Entry>>, base: u64) -> spec_fn(int, int) -> Seq<u32> {
    |i: int, j: int| quad(word_address(base, info_at(ts, i) + REG_INFO_ENTRY_DWORDS * j + 1))
}

/// How the triple of entry `j` of table `i` is written: its type, four times
/// its index plus the table's index within the set, and zero.
pub open spec fn triple_writer(ts: Seq<Seq<Entry>>) -> spec_fn(int, int) -> Seq<u32> {
    |i: int, j: int| seq![ts[i][j].type_hash, (4 * j + i % 3) as u32, 0u32]
}

/// The image of the tables `ts` at `base`: two headers, the entries, a pointer
/// to each entry's registers, and a triple for each entry.
pub open spec fn table_image(ts: Seq<Seq<Entry>>, base: u64) -> Seq<u32> {
    set_header(ts, base, 0) + set_header(ts, base, 1) + flat(ts, entry_writer(ts), 6) + Seq::new(
        (info_at(ts, 6) % 2) as nat,
        |k: int| 0u32,
    ) + flat(ts, pointer_writer(ts, base), 6) + flat(ts, triple_writer(ts), 6)
}

/// The length of an image of the tables `ts`, in DWORDs.
pub open spec fn table_dwords(ts: Seq<Seq<Entry>>) -> int {
    triples_at(ts) + 3 * total(ts, 6)
}

/// The lists that vectors hold.
pub open spec fn lists<T>(v: Seq<Vec<T>>) -> Seq<Seq<T>> {
    v.map_values(|t: Vec<T>| t@)
}

proof fn lemma_total_mono<T>(l: Seq<Seq<T>>, i: int, j: int)
    requires
        0 <= i <= j <= l.len(),
    ensures
        0 <= total(l, i) <= total(l, j),
    decreases j,
{
    if i < j {
        lemma_total_mono(l, i, j - 1);
    } else if j > 0 {
        lemma_total_mono(l, i - 1, j - 1);
    }
}

/// Lists of the same lengths have the same totals.
proof fn lemma_total_same<T, U>(l: Seq<Seq<T>>, m: Seq<Seq<U>>, k: int)
    requires
        k <= l.len(),
        l.len() == m.len(),
        forall|i: int| 0 <= i < l.len() ==> (#[trigger] l[i]).len() == m[i].len(),
    ensures
        total(l, k) == total(m, k),
    decreases k,
{
    if k > 0 {
        lemma_total_same(l, m, k - 1);
        assert(l[k - 1].len() == m[k - 1].len());
    }
}

/// The total lengths of the first lists, up to all of them, or `None` when
/// they exceed `limit`.
fn running_totals<T>(v: &Vec<Vec<T>>, limit: u64) -> (r: Option<Vec<u64>>)
    requires
        limit <= 0xFFFF_FFFF,
    ensures
        r is Some == (total(lists(v@), v@.len() as int) <= limit),
        r is Some ==> r->0@.len() == v@.len() + 1,
        r is Some ==> forall|k: int| #![trigger r->0@[k]]
            0 <= k <= v@.len() ==> r->0@[k] == total(lists(v@), k) && r->0@[k] <= limit,
{
    let ghost l = lists(v@);
    let mut out: Vec<u64> = Vec::new();
    let mut sum: u64 = 0;
    out.push(0);
    let mut i: usize = 0;
    while i < v.len()
        invariant
            i <= v@.len(),
            l == lists(v@),
            limit <= 0xFFFF_FFFF,
            sum <= limit,
            sum == total(l, i as int),
            out@.len() == i + 1,
            forall|k: int| #![trigger out@[k]]
                0 <= k <= i ==> out@[k] == total(l, k) && out@[k] <= limit,
        decreases v@.len() - i,
    {
        let n: usize = v[i].len();
        assert(l[i as int].len() == n);
        proof {
            lemma_total_mono(l, i + 1, v@.len() as int);
        }
        if n as u64 > limit - sum {
            return None;
        }
        sum = sum + n as u64;
        out.push(sum);
        i += 1;
    }
    Some(out)
}

/// Append the header of a set.
fn push_header(out: &mut Vec<u32>, p: &[u64; 4], counts: &[u32; 4], types: u64, n: u32)
    ensures
        final(out)@ == old(out)@ + header_words(p@, counts@, types, n),
{
    let ghost before = out@;
    out.push(lo32(p[0]));
    out.push(hi32(p[0]));
    out.push(lo32(p[1]));
    out.push(hi32(p[1]));
    out.push(lo32(p[2]));
    out.push(hi32(p[2]));
    out.push(lo32(p[3]));
    out.push(hi32(p[3]));
    out.push(counts[0]);
    out.push(counts[1]);
    out.push(counts[2]);
    out.push(counts[3]);
    out.push(lo32(types));
    out.push(hi32(types));
    out.push(n);
    out.push(0);
    assert(out@ =~= before + header_words(p@, counts@, types, n));
}

/// Append an entry.
fn push_entry(out: &mut Vec<u32>, e: &DefaultEntry)
    ensures
        final(out)@ == old(out)@ + entry_words(e@),
{
    let ghost before = out@;
    out.push(e.type_hash);
    let mut slot: usize = 0;
    while slot < 16
        invariant
            slot <= 16,
            out@.len() == before.len() + 1 + 2 * slot,
            out@ =~= before + entry_words(e@).take(1 + 2 * slot),
        decreases 16 - slot,
    {
        let (offset, value): (u32, u32) = if slot < e.registers.len() {
            e.registers[slot]
        } else {
            (0, 0)
        };
        let ghost w = entry_words(e@);
        assert(w[1 + 2 * slot] == offset) by {
            assert((1 + 2 * slot - 1) / 2 == slot);
            assert((1 + 2 * slot - 1) % 2 == 0);
        }
        assert(w[2 + 2 * slot] == value) by {
            assert((2 + 2 * slot - 1) / 2 == slot);
            assert((2 + 2 * slot - 1) % 2 == 1);
        }
        out.push(offset);
        out.push(value);
        slot += 1;
    }
    assert(entry_words(e@).take(33) =~= entry_words(e@));
}

/// Append all entries.
fn push_entries(out: &mut Vec<u32>, ts: &Vec<Vec<DefaultEntry>>)
    requires
        ts@.len() == 6,
    ensures
        final(out)@ == old(out)@ + flat(
            tables_view(ts@),
            entry_writer(tables_view(ts@)),
            6,
        ),
{
    let ghost before = out@;
    let ghost l = tables_view(ts@);
    let ghost f = entry_writer(l);
    let mut i: usize = 0;
    assert(out@ =~= before + flat(l, f, 0));
    while i < 6
        invariant
            i <= 6,
            ts@.len() == 6,
            l == tables_view(ts@),
            f == entry_writer(l),
            out@ == before + flat(l, f, i as int),
        decreases 6 - i,
    {
        let t = &ts[i];
        let ghost start = before + flat(l, f, i as int);
        let mut j: usize = 0;
        assert(out@ =~= start + run_of(f, i as int, 0));
        assert(l[i as int] == entries_view(t@));
        while j < t.len()
            invariant
                i < 6,
                ts@.len() == 6,
                l == tables_view(ts@),
                f == entry_writer(l),
                t@ == ts@[i as int]@,
                l[i as int] == entries_view(t@),
                j <= t@.len(),
                out@ == start + run_of(f, i as int, j as int),
            decreases t@.len() - j,
        {
            push_entry(out, &t[j]);
            assert(f(i as int, j as int) == entry_words(t@[j as int]@));
            assert(out@ =~= start + run_of(f, i as int, j + 1));
            j += 1;
        }
        assert(out@ =~= before + flat(l, f, i + 1));
        i += 1;
    }
}

/// Append a 64-bit value.
fn push_quad(out: &mut Vec<u32>, v: u64)
    ensures
        final(out)@ == old(out)@ + quad(v),
{
    let ghost before = out@;
    out.push(lo32(v));
    out.push(hi32(v));
    assert(out@ =~= before + quad(v));
}

/// Append the pointers to all entries.
fn push_pointers(out: &mut Vec<u32>, ts: &Vec<Vec<DefaultEntry>>, c: &Vec<u64>, base: u64)
    requires
        ts@.len() == 6,
        c@.len() == 7,
        forall|k: int| #![trigger c@[k]]
            0 <= k <= 6 ==> c@[k] == total(tables_view(ts@), k) && c@[k] <= 0x1_0000,
    ensures
        final(out)@ == old(out)@ + flat(
            tables_view(ts@),
            pointer_writer(tables_view(ts@), base),
            6,
        ),
{
    let ghost before = out@;
    let ghost l = tables_view(ts@);
    let ghost f = pointer_writer(l, base);
    let mut i: usize = 0;
    assert(out@ =~= before + flat(l, f, 0));
    while i < 6
        invariant
            i <= 6,
            ts@.len() == 6,
            c@.len() == 7,
            forall|k: int| #![trigger c@[k]]
                0 <= k <= 6 ==> c@[k] == total(l, k) && c@[k] <= 0x1_0000,
            l == tables_view(ts@),
            f == pointer_writer(l, base),
            out@ == before + flat(l, f, i as int),
        decreases 6 - i,
    {
        let n: usize = ts[i].len();
        let ghost start = before + flat(l, f, i as int);
        let mut j: usize = 0;
        assert(out@ =~= start + run_of(f, i as int, 0));
        assert(l[i as int].len() == n);
        assert(c@[i as int] == total(l, i as int));
        assert(c@[i + 1] == total(l, i + 1));
        assert(total(l, i + 1) == total(l, i as int) + n);
        while j < n
            invariant
                i < 6,
                j <= n <= 0x1_0000,
                c@.len() == 7,
                c@[i as int] == total(l, i as int),
                c@[i as int] <= 0x1_0000,
                f == pointer_writer(l, base),
                out@ == start + run_of(f, i as int, j as int),
            decreases n - j,
        {
            let words: u64 = 32 + REG_INFO_ENTRY_DWORDS * c[i] + REG_INFO_ENTRY_DWORDS * (j as u64)
                + 1;
            push_quad(out, base.wrapping_add(4 * words));
            assert(f(i as int, j as int) == quad(word_address(base, words as int)));
            assert(out@ =~= start + run_of(f, i as int, j + 1));
            j += 1;
        }
        assert(out@ =~= before + flat(l, f, i + 1));
        i += 1;
    }
}

/// Append the triples of all entries.
fn push_triples(out: &mut Vec<u32>, ts: &Vec<Vec<DefaultEntry>>)
    requires
        ts@.len() == 6,
        forall|i: int| 0 <= i < 6 ==> (#[trigger] ts@[i])@.len() <= 0x1_0000,
    ensures
        final(out)@ == old(out)@ + flat(
            tables_view(ts@),
            triple_writer(tables_view(ts@)),
            6,
        ),
{
    let ghost before = out@;
    let ghost l = tables_view(ts@);
    let ghost f = triple_writer(l);
    let mut i: usize = 0;
    assert(out@ =~= before + flat(l, f, 0));
    while i < 6
        invariant
            i <= 6,
            ts@.len() == 6,
            forall|i: int| 0 <= i < 6 ==> (#[trigger] ts@[i])@.len() <= 0x1_0000,
            l == tables_view(ts@),
            f == triple_writer(l),
            out@ == before + flat(l, f, i as int),
        decreases 6 - i,
    {
        let t = &ts[i];
        let ghost start = before + flat(l, f, i as int);
        let mut j: usize = 0;
        assert(out@ =~= start + run_of(f, i as int, 0));
        assert(l[i as int] == entries_view(t@));
        while j < t.len()
            invariant
                i < 6,
                j <= t@.len() <= 0x1_0000,
                f == triple_writer(l),
                l[i as int] == entries_view(t@),
                out@ == start + run_of(f, i as int, j as int),
            decreases t@.len() - j,
        {
            let ghost mid = out@;
            out.push(t[j].type_hash);
            out.push((4 * j + i % 3) as u32);
            out.push(0);
            assert(f(i as int, j as int) == seq![
                t@[j as int].type_hash,
                (4 * j + i % 3) as u32,
                0u32,
            ]);
            assert(out@ =~= mid + f(i as int, j as int));
            assert(out@ =~= start + run_of(f, i as int, j + 1));
            j += 1;
        }
        assert(out@ =~= before + flat(l, f, i + 1));
        i += 1;
    }
}

/// Count the registers that a table's entries list.
fn count_registers(t: &Vec<DefaultEntry>) -> (r: u32)
    requires
        t@.len() <= 140,
        forall|k: int| 0 <= k < t@.len() ==> (#[trigger] t@[k]).registers@.len() <= 140,
    ensures
        r == register_count(entries_view(t@), t@.len() as int),
{
    let mut sum: u32 = 0;
    let mut i: usize = 0;
    while i < t.len()
        invariant
            i <= t@.len() <= 140,
            forall|k: int| 0 <= k < t@.len() ==> (#[trigger] t@[k]).registers@.len() <= 140,
            sum == register_count(entries_view(t@), i as int),
            sum <= 140 * i,
        decreases t@.len() - i,
    {
        sum = sum + t[i].registers.len() as u32;
        i += 1;
    }
    sum
}

/// Append the header of set `s`.
fn push_set_header(
    out: &mut Vec<u32>,
    ts: &Vec<Vec<DefaultEntry>>,
    c: &Vec<u64>,
    base: u64,
    s: usize,
)
    requires
        s < 2,
        ts@.len() == 6,
        c@.len() == 7,
        forall|i: int| 0 <= i < 6 ==> (#[trigger] ts@[i])@.len() <= 140,
        forall|i: int, k: int|
            0 <= i < 6 && 0 <= k < ts@[i]@.len() ==> (#[trigger] ts@[i]@[k]).registers@.len()
                <= 140,
        forall|k: int| #![trigger c@[k]]
            0 <= k <= 6 ==> c@[k] == total(tables_view(ts@), k) && c@[k] <= 0x1_0000,
    ensures
        final(out)@ == old(out)@ + set_header(tables_view(ts@), base, s as int),
{
    let ghost l = tables_view(ts@);
    let i: usize = 3 * s;
    proof {
        lemma_total_mono(l, i as int, i + 3);
        assert(c@[6] == total(l, 6));
        assert(c@[i as int] == total(l, i as int) && c@[i + 1] == total(l, i + 1) && c@[i + 2]
            == total(l, i + 2) && c@[i + 3] == total(l, i + 3));
    }
    let info_end: u64 = 32 + REG_INFO_ENTRY_DWORDS * c[6];
    let pointers: u64 = info_end + info_end % 2;
    let triples: u64 = pointers + 2 * c[6];
    let p: [u64; 4] = [
        base.wrapping_add(4 * (pointers + 2 * c[i])),
        base.wrapping_add(4 * (pointers + 2 * c[i + 1])),
        base.wrapping_add(4 * (pointers + 2 * c[i + 2])),
        0,
    ];
    let counts: [u32; 4] = [
        count_registers(&ts[i]),
        count_registers(&ts[i + 1]),
        count_registers(&ts[i + 2]),
        0,
    ];
    let types: u64 = base.wrapping_add(4 * (triples + 3 * c[i]));
    push_header(out, &p, &counts, types, (c[i + 3] - c[i]) as u32);
    proof {
        assert(l[i as int] == entries_view(ts@[i as int]@));
        assert(l[i + 1] == entries_view(ts@[i + 1]@));
        assert(l[i + 2] == entries_view(ts@[i + 2]@));
        assert(p@ =~= seq![
            word_address(base, pointers_at(l) + 2 * total(l, i as int)),
            word_address(base, pointers_at(l) + 2 * total(l, i + 1)),
            word_address(base, pointers_at(l) + 2 * total(l, i + 2)),
            0u64,
        ]);
        assert(counts@ =~= seq![
            register_count(l[i as int], l[i as int].len() as int) as u32,
            register_count(l[i + 1], l[i + 1].len() as int) as u32,
            register_count(l[i + 2], l[i + 2].len() as int) as u32,
            0u32,
        ]);
    }
}

proof fn lemma_run_len(f: spec_fn(int, int) -> Seq<u32>, i: int, n: int, w: int)
    requires
        0 <= n,
        forall|j: int| (#[trigger] f(i, j)).len() == w,
    ensures
        run_of(f, i, n).len() == w * n,
    decreases n,
{
    if n > 0 {
        lemma_run_len(f, i, n - 1, w);
        assert(w * n == w * (n - 1) + w) by (nonlinear_arith);
    } else {
        assert(w * 0 == 0) by (nonlinear_arith);
    }
}

proof fn lemma_flat_len<T>(l: Seq<Seq<T>>, f: spec_fn(int, int) -> Seq<u32>, k: int, w: int)
    requires
        0 <= k <= l.len(),
        forall|i: int, j: int| (#[trigger] f(i, j)).len() == w,
    ensures
        flat(l, f, k).len() == w * total(l, k),
    decreases k,
{
    if k > 0 {
        let n = l[k - 1].len() as int;
        lemma_flat_len(l, f, k - 1, w);
        lemma_run_len(f, k - 1, n, w);
        assert(w * (total(l, k - 1) + n) == w * total(l, k - 1) + w * n) by (nonlinear_arith);
    } else {
        assert(w * 0 == 0) by (nonlinear_arith);
    }
}

/// An image of the tables has the length that was asked for.
pub proof fn law_table_image_length(ts: Seq<Seq<Entry>>, base: u64)
    requires
        ts.len() == 6,
    ensures
        table_image(ts, base).len() == table_dwords(ts),
{
    lemma_flat_len(ts, entry_writer(ts), 6, 33);
    lemma_flat_len(ts, pointer_writer(ts, base), 6, 2);
    lemma_flat_len(ts, triple_writer(ts), 6, 3);
}

/// Element `j` of a run written in pieces of `w` DWORDs.
proof fn lemma_run_at(f: spec_fn(int, int) -> Seq<u32>, i: int, n: int, w: int, j: int)
    requires
        0 <= j < n,
        forall|i: int, j: int| (#[trigger] f(i, j)).len() == w,
    ensures
        0 <= w * j,
        w * j + w <= run_of(f, i, n).len(),
        run_of(f, i, n).subrange(w * j, w * j + w) == f(i, j),
    decreases n,
{
    let before = run_of(f, i, n - 1);
    let all = run_of(f, i, n);
    lemma_run_len(f, i, n - 1, w);
    assert(f(i, n - 1).len() == w);
    assert(w * n == w * (n - 1) + w) by (nonlinear_arith);
    assert(0 <= w * j) by (nonlinear_arith)
        requires
            0 <= w,
            0 <= j,
    ;
    if j == n - 1 {
        assert(all.subrange(w * j, w * j + w) =~= f(i, j));
    } else {
        lemma_run_at(f, i, n - 1, w, j);
        assert(all.subrange(w * j, w * j + w) =~= before.subrange(w * j, w * j + w));
    }
}

/// Element `j` of list `i` in lists written in pieces of `w` DWORDs.
proof fn lemma_flat_at<T>(
    l: Seq<Seq<T>>,
    f: spec_fn(int, int) -> Seq<u32>,
    k: int,
    w: int,
    i: int,
    j: int,
)
    requires
        0 <= i < k <= l.len(),
        0 <= j < l[i].len(),
        forall|i: int, j: int| (#[trigger] f(i, j)).len() == w,
    ensures
        0 <= w * (total(l, i) + j),
        w * (total(l, i) + j) + w <= flat(l, f, k).len(),
        flat(l, f, k).subrange(w * (total(l, i) + j), w * (total(l, i) + j) + w) == f(i, j),
    decreases k,
{
    let at = w * (total(l, i) + j);
    let before = flat(l, f, k - 1);
    let n = l[k - 1].len() as int;
    lemma_flat_len(l, f, k - 1, w);
    lemma_run_len(f, k - 1, n, w);
    if i == k - 1 {
        lemma_run_at(f, i, n, w, j);
        assert(at == w * total(l, i) + w * j) by (nonlinear_arith)
            requires
                at == w * (total(l, i) + j),
        ;
        lemma_total_mono(l, 0, i);
        assert(0 <= w * total(l, i)) by (nonlinear_arith)
            requires
                0 <= w,
                0 <= total(l, i),
        ;
        assert(f(i, j).len() == w);
        assert(flat(l, f, k).subrange(at, at + w) =~= run_of(f, i, n).subrange(w * j, w * j + w));
    } else {
        lemma_flat_at(l, f, k - 1, w, i, j);
        assert(flat(l, f, k).subrange(at, at + w) =~= before.subrange(at, at + w));
    }
}

/// Where the parts of an image of two headers, a body, padding and two lists
/// stand.
proof fn lemma_parts(
    h0: Seq<u32>,
    h1: Seq<u32>,
    body: Seq<u32>,
    pad: Seq<u32>,
    pointers: Seq<u32>,
    types: Seq<u32>,
)
    requires
        h0.len() == 16,
        h1.len() == 16,
    ensures
        ({
            let w = h0 + h1 + body + pad + pointers + types;
            let p = 32 + body.len() + pad.len();
            let t = p + pointers.len();
            &&& w.len() == t + types.len()
            &&& forall|x: int| 0 <= x < 16 ==> #[trigger] h0[x] == w[x]
            &&& forall|x: int| 0 <= x < 16 ==> #[trigger] h1[x] == w[16 + x]
            &&& forall|x: int| 0 <= x < body.len() ==> #[trigger] body[x] == w[32 + x]
            &&& forall|x: int| 0 <= x < pointers.len() ==> #[trigger] pointers[x] == w[p + x]
            &&& forall|x: int| 0 <= x < types.len() ==> #[trigger] types[x] == w[t + x]
        }),
{
}

/// A piece of a part, where the part stands at `p`.
proof fn lemma_part_at(w: Seq<u32>, part: Seq<u32>, p: int, at: int, n: int)
    requires
        0 <= p,
        p + part.len() <= w.len(),
        0 <= at,
        0 <= n,
        at + n <= part.len(),
        forall|x: int| 0 <= x < part.len() ==> #[trigger] part[x] == w[p + x],
    ensures
        w.subrange(p + at, p + at + n) == part.subrange(at, at + n),
{
    let a = w.subrange(p + at, p + at + n);
    let b = part.subrange(at, at + n);
    assert forall|x: int| 0 <= x < n implies #[trigger] a[x] == b[x] by {
        assert(part[at + x] == w[p + (at + x)]);
    }
    assert(a =~= b);
}

/// An address in a header that stands at `p`.
proof fn lemma_header_at(w: Seq<u32>, h: Seq<u32>, p: int, k: int, v: u64)
    requires
        h.len() == 16,
        0 <= p,
        p + 16 <= w.len(),
        0 <= k < 15,
        forall|x: int| 0 <= x < 16 ==> #[trigger] h[x] == w[p + x],
        h[k] == lo(v),
        h[k + 1] == hi(v),
    ensures
        w.subrange(p + k, p + k + 2) == quad(v),
{
    assert(w.subrange(p + k, p + k + 2) =~= quad(v));
}

/// The header of a set holds the address of each of its pointer tables.
proof fn lemma_set_header(ts: Seq<Seq<Entry>>, base: u64, i: int)
    requires
        ts.len() == 6,
        0 <= i < 6,
    ensures
        ({
            let h = set_header(ts, base, i / 3);
            let at = word_address(base, pointers_at(ts) + 2 * total(ts, i));
            h[2 * (i % 3)] == lo(at) && h[2 * (i % 3) + 1] == hi(at)
        }),
{
    let s = i / 3;
    assert(i == 3 * s + i % 3);
    assert(i % 3 == 0 || i % 3 == 1 || i % 3 == 2);
}

/// Where the parts of an image of the tables stand.
proof fn lemma_table_parts(ts: Seq<Seq<Entry>>, base: u64, w: Seq<u32>)
    requires
        ts.len() == 6,
        w == table_image(ts, base),
    ensures
        w.len() == table_dwords(ts),
        flat(ts, entry_writer(ts), 6).len() == 33 * total(ts, 6),
        flat(ts, pointer_writer(ts, base), 6).len() == 2 * total(ts, 6),
        flat(ts, triple_writer(ts), 6).len() == 3 * total(ts, 6),
        forall|x: int| 0 <= x < 16 ==> #[trigger] set_header(ts, base, 0)[x] == w[x],
        forall|x: int| 0 <= x < 16 ==> #[trigger] set_header(ts, base, 1)[x] == w[16 + x],
        forall|x: int|
            0 <= x < 33 * total(ts, 6) ==> #[trigger] flat(ts, entry_writer(ts), 6)[x] == w[32 + x],
        forall|x: int|
            0 <= x < 2 * total(ts, 6) ==> #[trigger] flat(ts, pointer_writer(ts, base), 6)[x]
                == w[pointers_at(ts) + x],
        forall|x: int|
            0 <= x < 3 * total(ts, 6) ==> #[trigger] flat(ts, triple_writer(ts), 6)[x]
                == w[triples_at(ts) + x],
{
    lemma_flat_len(ts, entry_writer(ts), 6, 33);
    lemma_flat_len(ts, pointer_writer(ts, base), 6, 2);
    lemma_flat_len(ts, triple_writer(ts), 6, 3);
    lemma_parts(
        set_header(ts, base, 0),
        set_header(ts, base, 1),
        flat(ts, entry_writer(ts), 6),
        Seq::new((info_at(ts, 6) % 2) as nat, |k: int| 0u32),
        flat(ts, pointer_writer(ts, base), 6),
        flat(ts, triple_writer(ts), 6),
    );
}

/// The pointer and the triple of an entry, and the entry itself.
proof fn lemma_table_rows(ts: Seq<Seq<Entry>>, base: u64, w: Seq<u32>, i: int, j: int)
    requires
        ts.len() == 6,
        w == table_image(ts, base),
        0 <= i < 6,
        0 <= j < ts[i].len(),
    ensures
        ({
            let place = total(ts, i) + j;
            &&& 0 <= place
            &&& 32 + 33 * place + 33 <= w.len()
            &&& w.subrange(32 + 33 * place, 32 + 33 * place + 33) == entry_words(ts[i][j])
            &&& w.subrange(pointers_at(ts) + 2 * place, pointers_at(ts) + 2 * place + 2) == quad(
                word_address(base, info_at(ts, i) + REG_INFO_ENTRY_DWORDS * j + 1),
            )
            &&& w.subrange(triples_at(ts) + 3 * place, triples_at(ts) + 3 * place + 3) == seq![
                ts[i][j].type_hash,
                (4 * j + i % 3) as u32,
                0u32,
            ]
        }),
{
    let place = total(ts, i) + j;
    lemma_table_parts(ts, base, w);
    lemma_total_mono(ts, 0, 6);
    lemma_flat_at(ts, entry_writer(ts), 6, 33, i, j);
    lemma_flat_at(ts, pointer_writer(ts, base), 6, 2, i, j);
    lemma_flat_at(ts, triple_writer(ts), 6, 3, i, j);
    lemma_part_at(w, flat(ts, entry_writer(ts), 6), 32, 33 * place, 33);
    lemma_part_at(w, flat(ts, pointer_writer(ts, base), 6), pointers_at(ts), 2 * place, 2);
    lemma_part_at(w, flat(ts, triple_writer(ts), 6), triples_at(ts), 3 * place, 3);
}

/// The address of a pointer table in the header of its set.
proof fn lemma_table_header(ts: Seq<Seq<Entry>>, base: u64, w: Seq<u32>, i: int)
    requires
        ts.len() == 6,
        w == table_image(ts, base),
        0 <= i < 6,
    ensures
        w.subrange(16 * (i / 3) + 2 * (i % 3), 16 * (i / 3) + 2 * (i % 3) + 2) == quad(
            word_address(base, pointers_at(ts) + 2 * total(ts, i)),
        ),
{
    let at = word_address(base, pointers_at(ts) + 2 * total(ts, i));
    lemma_table_parts(ts, base, w);
    lemma_total_mono(ts, 0, 6);
    lemma_set_header(ts, base, i);
    if i < 3 {
        lemma_header_at(w, set_header(ts, base, 0), 0, 2 * i, at);
    } else {
        lemma_header_at(w, set_header(ts, base, 1), 16, 2 * (i - 3), at);
    }
}

/// The registers of an entry that stands at `at`.
proof fn lemma_registers_at(w: Seq<u32>, at: int, e: Entry)
    requires
        0 <= at,
        at + 33 <= w.len(),
        w.subrange(at, at + 33) == entry_words(e),
    ensures
        w[at] == e.type_hash,
        forall|k: int|
            0 <= k < e.registers.len() && k < 16 ==> (w[at + 1 + 2 * k], w[at + 1 + 2 * k + 1])
                == #[trigger] e.registers[k],
{
    let entry = w.subrange(at, at + 33);
    assert(entry[0] == w[at]);
    assert forall|k: int| 0 <= k < e.registers.len() && k < 16 implies (
        w[at + 1 + 2 * k],
        w[at + 1 + 2 * k + 1],
    ) == #[trigger] e.registers[k] by {
        assert(w[at + 1 + 2 * k] == entry[1 + 2 * k]);
        assert(w[at + 1 + 2 * k + 1] == entry[2 + 2 * k]);
    }
}

/// The image can be walked. For entry `j` of table `i`, three tables to a set:
/// the set's header holds the address of the table's pointers, the pointer of
/// the entry holds the address of its registers, the registers stand there
/// behind the entry's type, and the entry's triple names its type and its place.
pub proof fn law_tables_can_be_walked(ts: Seq<Seq<Entry>>, base: u64, i: int, j: int)
    requires
        ts.len() == 6,
        0 <= i < 6,
        0 <= j < ts[i].len(),
    ensures
        ({
            let w = table_image(ts, base);
            let e = ts[i][j];
            let header = 16 * (i / 3) + 2 * (i % 3);
            let pointers = pointers_at(ts) + 2 * total(ts, i);
            let registers = info_at(ts, i) + REG_INFO_ENTRY_DWORDS * j + 1;
            let triple = triples_at(ts) + 3 * (total(ts, i) + j);
            &&& w.subrange(header, header + 2) == quad(word_address(base, pointers))
            &&& w.subrange(pointers + 2 * j, pointers + 2 * j + 2) == quad(
                word_address(base, registers),
            )
            &&& w[registers - 1] == e.type_hash
            &&& forall|k: int|
                0 <= k < e.registers.len() && k < 16 ==> (w[registers + 2 * k], w[registers + 2 * k
                    + 1]) == #[trigger] e.registers[k]
            &&& w.subrange(triple, triple + 3) == seq![e.type_hash, (4 * j + i % 3) as u32, 0u32]
        }),
{
    let w = table_image(ts, base);
    let e = ts[i][j];
    let registers = info_at(ts, i) + REG_INFO_ENTRY_DWORDS * j + 1;
    let place = total(ts, i) + j;
    lemma_table_rows(ts, base, w, i, j);
    lemma_table_header(ts, base, w, i);
    lemma_registers_at(w, 32 + 33 * place, e);
    assert(registers == 32 + 33 * place + 1);
}

/// Where the parts of a compact image stand.
proof fn lemma_compact_parts(c: Compact, base: u64, w: Seq<u32>)
    requires
        c.registers.len() == 8,
        c.pointers.len() == 8,
        c.types.len() == 2,
        w == compact_image(c, base),
    ensures
        w.len() == compact_dwords(c),
        0 <= total(c.registers, 8),
        0 <= total(c.pointers, 8),
        0 <= total(c.types, 2),
        flat(c.registers, register_writer(c), 8).len() == 2 * total(c.registers, 8),
        flat(c.pointers, compact_pointer_writer(c, base), 8).len() == 2 * total(c.pointers, 8),
        flat(c.types, type_writer(c), 2).len() == total(c.types, 2),
        forall|x: int| 0 <= x < 16 ==> #[trigger] compact_header(c, base, 0)[x] == w[x],
        forall|x: int| 0 <= x < 16 ==> #[trigger] compact_header(c, base, 1)[x] == w[16 + x],
        forall|x: int|
            0 <= x < 2 * total(c.registers, 8) ==> #[trigger] flat(
                c.registers,
                register_writer(c),
                8,
            )[x] == w[32 + x],
        forall|x: int|
            0 <= x < 2 * total(c.pointers, 8) ==> #[trigger] flat(
                c.pointers,
                compact_pointer_writer(c, base),
                8,
            )[x] == w[compact_pointers_at(c) + x],
        forall|x: int|
            0 <= x < total(c.types, 2) ==> #[trigger] flat(c.types, type_writer(c), 2)[x]
                == w[compact_types_at(c) + x],
{
    let values = flat(c.registers, register_writer(c), 8);
    let addresses = flat(c.pointers, compact_pointer_writer(c, base), 8);
    let types = flat(c.types, type_writer(c), 2);
    let none = Seq::<u32>::empty();
    let h = compact_header(c, base, 0) + compact_header(c, base, 1);
    lemma_flat_len(c.registers, register_writer(c), 8, 2);
    lemma_flat_len(c.pointers, compact_pointer_writer(c, base), 8, 2);
    lemma_flat_len(c.types, type_writer(c), 2, 1);
    lemma_total_mono(c.registers, 0, 8);
    lemma_total_mono(c.pointers, 0, 8);
    lemma_total_mono(c.types, 0, 2);
    lemma_parts(
        compact_header(c, base, 0),
        compact_header(c, base, 1),
        values,
        none,
        addresses,
        types,
    );
    assert(h + values + none =~= h + values);
}

/// The header of a compact set holds the address of each of its pointer tables.
proof fn lemma_compact_header(c: Compact, base: u64, i: int)
    requires
        0 <= i < 8,
    ensures
        ({
            let h = compact_header(c, base, i / 4);
            let at = compact_table(c, base, i);
            h[2 * (i % 4)] == lo(at) && h[2 * (i % 4) + 1] == hi(at)
        }),
{
    let s = i / 4;
    assert(i == 4 * s + i % 4);
    assert(i % 4 == 0 || i % 4 == 1 || i % 4 == 2 || i % 4 == 3);
}

/// The addresses in the header of a compact set.
proof fn lemma_compact_header_at(c: Compact, base: u64, w: Seq<u32>, i: int)
    requires
        c.registers.len() == 8,
        c.pointers.len() == 8,
        c.types.len() == 2,
        w == compact_image(c, base),
        0 <= i < 8,
    ensures
        w.subrange(16 * (i / 4) + 2 * (i % 4), 16 * (i / 4) + 2 * (i % 4) + 2) == quad(
            compact_table(c, base, i),
        ),
{
    lemma_compact_parts(c, base, w);
    lemma_compact_header(c, base, i);
    if i < 4 {
        lemma_header_at(w, compact_header(c, base, 0), 0, 2 * i, compact_table(c, base, i));
    } else {
        lemma_header_at(w, compact_header(c, base, 1), 16, 2 * (i - 4), compact_table(c, base, i));
    }
}

/// A register and a pointer of a compact image.
proof fn lemma_compact_rows(c: Compact, base: u64, w: Seq<u32>, i: int, j: int)
    requires
        c.registers.len() == 8,
        c.pointers.len() == 8,
        c.types.len() == 2,
        w == compact_image(c, base),
        0 <= i < 8,
        0 <= j < c.pointers[i].len(),
        c.pointers[i][j] < c.registers[i].len(),
    ensures
        ({
            let p = c.pointers[i][j] as int;
            let at = 32 + 2 * (total(c.registers, i) + p);
            let place = compact_pointers_at(c) + 2 * (total(c.pointers, i) + j);
            &&& 0 <= at
            &&& at + 2 <= w.len()
            &&& w.subrange(at, at + 2) == seq![c.registers[i][p].0, c.registers[i][p].1]
            &&& w.subrange(place, place + 2) == quad(word_address(base, at))
        }),
{
    let p = c.pointers[i][j] as int;
    let at = total(c.registers, i) + p;
    let place = total(c.pointers, i) + j;
    lemma_compact_parts(c, base, w);
    lemma_flat_at(c.registers, register_writer(c), 8, 2, i, p);
    lemma_flat_at(c.pointers, compact_pointer_writer(c, base), 8, 2, i, j);
    lemma_part_at(w, flat(c.registers, register_writer(c), 8), 32, 2 * at, 2);
    lemma_part_at(
        w,
        flat(c.pointers, compact_pointer_writer(c, base), 8),
        compact_pointers_at(c),
        2 * place,
        2,
    );
}

/// The compact image can be walked. The header of a set holds the addresses of
/// its four pointer tables and of its types; pointer `j` of table `i`, four
/// tables to a set, holds the address of the register it stands for; registers
/// and types stand in order.
pub proof fn law_compact_image_can_be_walked(c: Compact, base: u64, i: int, j: int)
    requires
        c.registers.len() == 8,
        c.pointers.len() == 8,
        c.types.len() == 2,
        0 <= i < 8,
        0 <= j < c.pointers[i].len(),
        c.pointers[i][j] < c.registers[i].len(),
    ensures
        ({
            let w = compact_image(c, base);
            let header = 16 * (i / 4) + 2 * (i % 4);
            let pointers = compact_pointers_at(c) + 2 * total(c.pointers, i);
            let register = 32 + 2 * (total(c.registers, i) + c.pointers[i][j]);
            &&& w.subrange(header, header + 2) == quad(word_address(base, pointers))
            &&& w.subrange(pointers + 2 * j, pointers + 2 * j + 2) == quad(
                word_address(base, register),
            )
            &&& (w[register], w[register + 1]) == c.registers[i][c.pointers[i][j] as int]
        }),
{
    let w = compact_image(c, base);
    let at = 32 + 2 * (total(c.registers, i) + c.pointers[i][j]);
    lemma_compact_rows(c, base, w, i, j);
    lemma_compact_header_at(c, base, w, i);
    assert(w.subrange(at, at + 2)[0] == w[at] && w.subrange(at, at + 2)[1] == w[at + 1]);
}

/// The types of a compact set in its header.
proof fn lemma_compact_types_header(c: Compact, base: u64, w: Seq<u32>, s: int)
    requires
        c.registers.len() == 8,
        c.pointers.len() == 8,
        c.types.len() == 2,
        w == compact_image(c, base),
        0 <= s < 2,
    ensures
        w.subrange(16 * s + 12, 16 * s + 14) == quad(
            word_address(base, compact_types_at(c) + total(c.types, s)),
        ),
        w[16 * s + 14] == (c.types[s].len() / 3) as u32,
{
    let at = word_address(base, compact_types_at(c) + total(c.types, s));
    lemma_compact_parts(c, base, w);
    let h = compact_header(c, base, s);
    assert(h[12] == lo(at) && h[13] == hi(at) && h[14] == (c.types[s].len() / 3) as u32);
    if s == 0 {
        lemma_header_at(w, h, 0, 12, at);
        assert(compact_header(c, base, 0)[14] == w[14]);
    } else {
        lemma_header_at(w, h, 16, 12, at);
        assert(compact_header(c, base, 1)[14] == w[30]);
    }
}

/// A type of a compact image.
proof fn lemma_compact_types_at(c: Compact, base: u64, w: Seq<u32>, s: int, j: int)
    requires
        c.registers.len() == 8,
        c.pointers.len() == 8,
        c.types.len() == 2,
        w == compact_image(c, base),
        0 <= s < 2,
        0 <= j < c.types[s].len(),
    ensures
        w[compact_types_at(c) + total(c.types, s) + j] == c.types[s][j],
{
    let place = total(c.types, s) + j;
    let list = flat(c.types, type_writer(c), 2);
    lemma_compact_parts(c, base, w);
    lemma_flat_at(c.types, type_writer(c), 2, 1, s, j);
    assert(list.subrange(place, place + 1)[0] == list[place]);
}

/// The types of a compact set stand where its header says, in order.
pub proof fn law_compact_types_can_be_walked(c: Compact, base: u64, s: int, j: int)
    requires
        c.registers.len() == 8,
        c.pointers.len() == 8,
        c.types.len() == 2,
        0 <= s < 2,
        0 <= j < c.types[s].len(),
    ensures
        ({
            let w = compact_image(c, base);
            let types = compact_types_at(c) + total(c.types, s);
            &&& w.subrange(16 * s + 12, 16 * s + 14) == quad(word_address(base, types))
            &&& w[16 * s + 14] == (c.types[s].len() / 3) as u32
            &&& w[types + j] == c.types[s][j]
        }),
{
    let w = compact_image(c, base);
    lemma_compact_types_header(c, base, w, s);
    lemma_compact_types_at(c, base, w, s, j);
}

/// The tables as flat lists of entries have the totals of their vectors.
proof fn lemma_tables_totals(v: Seq<Vec<DefaultEntry>>)
    ensures
        forall|k: int| k <= v.len() ==> #[trigger] total(tables_view(v), k) == total(lists(v), k),
{
    assert forall|k: int| k <= v.len() implies #[trigger] total(tables_view(v), k) == total(
        lists(v),
        k,
    ) by {
        lemma_total_same(tables_view(v), lists(v), k);
    }
}

/// Build the tables with their running totals.
fn tables_with_totals() -> (r: (Vec<Vec<DefaultEntry>>, Vec<u64>))
    ensures
        tables_view(r.0@) == tables(),
        r.0@.len() == 6,
        forall|i: int| 0 <= i < 6 ==> (#[trigger] r.0@[i])@.len() <= 140,
        forall|i: int, k: int|
            0 <= i < 6 && 0 <= k < r.0@[i]@.len() ==> (#[trigger] r.0@[i]@[k]).registers@.len()
                <= 140,
        r.1@.len() == 7,
        forall|k: int| #![trigger r.1@[k]]
            0 <= k <= 6 ==> r.1@[k] == total(tables(), k) && r.1@[k] <= 0x1_0000,
{
    let ts = build_tables();
    proof {
        lemma_tables_totals(ts@);
        reveal_with_fuel(total, 7);
        let l = lists(ts@);
        assert(l[0] == ts@[0]@ && l[1] == ts@[1]@ && l[2] == ts@[2]@ && l[3] == ts@[3]@ && l[4]
            == ts@[4]@ && l[5] == ts@[5]@);
        assert(total(l, 6) <= 840);
    }
    match running_totals(&ts, 0x1_0000) {
        Some(c) => {
            assert forall|k: int| #![trigger c@[k]] 0 <= k <= 6 implies c@[k] == total(
                tables(),
                k,
            ) by {
                assert(total(tables_view(ts@), k) == total(lists(ts@), k));
            }
            (ts, c)
        },
        None => (ts, Vec::new()),
    }
}

/// Render the image of the tables at `base`.
fn render_tables(base: u64) -> (r: Vec<u32>)
    ensures
        r@ == table_image(tables(), base),
{
    let (ts, c) = tables_with_totals();
    let ghost l = tables();
    let mut out: Vec<u32> = Vec::new();
    push_set_header(&mut out, &ts, &c, base, 0);
    push_set_header(&mut out, &ts, &c, base, 1);
    push_entries(&mut out, &ts);
    assert(c@[6] == total(l, 6));
    let info_end: u64 = 32 + REG_INFO_ENTRY_DWORDS * c[6];
    let ghost before = out@;
    if info_end % 2 == 1 {
        out.push(0);
    }
    assert(out@ =~= before + Seq::new((info_at(l, 6) % 2) as nat, |k: int| 0u32));
    push_pointers(&mut out, &ts, &c, base);
    push_triples(&mut out, &ts);
    assert(out@ =~= table_image(l, base));
    out
}

/// The length of the tables' image in DWORDs.
fn measure_tables() -> (r: u64)
    ensures
        r == table_dwords(tables()),
        r <= 0x100_0000,
{
    let (_ts, c) = tables_with_totals();
    let n: u64 = c[6];
    assert(n == total(tables(), 6));
    let info_end: u64 = 32 + REG_INFO_ENTRY_DWORDS * n;
    info_end + info_end % 2 + 5 * n
}

/// Exactly four lists: missing ones are empty, further ones are left out.
pub open spec fn four<T>(l: Seq<Seq<T>>) -> Seq<Seq<T>> {
    Seq::new(
        4,
        |i: int|
            if i < l.len() {
                l[i]
            } else {
                Seq::empty()
            },
    )
}

/// The two sets in compact form.
pub struct Compact {
    pub registers: Seq<Seq<(u32, u32)>>,
    pub pointers: Seq<Seq<u32>>,
    pub types: Seq<Seq<u32>>,
}

/// The compact sets of a machine, the four tables of the public set first.
pub open spec fn compact_sets(m: Machine) -> Compact {
    Compact {
        registers: four(m.defaults.0.registers) + four(m.defaults.1.registers),
        pointers: four(m.defaults.0.pointers) + four(m.defaults.1.pointers),
        types: seq![m.defaults.0.types, m.defaults.1.types],
    }
}

/// Where the pointer tables start, in DWORDs.
pub open spec fn compact_pointers_at(c: Compact) -> int {
    32 + 2 * total(c.registers, 8)
}

/// Where the types start.
pub open spec fn compact_types_at(c: Compact) -> int {
    compact_pointers_at(c) + 2 * total(c.pointers, 8)
}

/// The length of a compact image in DWORDs.
pub open spec fn compact_dwords(c: Compact) -> int {
    compact_types_at(c) + total(c.types, 2)
}

/// The address of pointer table `i`, null when it is empty.
pub open spec fn compact_table(c: Compact, base: u64, i: int) -> u64 {
    if c.pointers[i].len() == 0 {
        0
    } else {
        word_address(base, compact_pointers_at(c) + 2 * total(c.pointers, i))
    }
}

/// The header of set `s` in a compact image.
pub open spec fn compact_header(c: Compact, base: u64, s: int) -> Seq<u32> {
    let i = 4 * s;
    header_words(
        seq![
            compact_table(c, base, i),
            compact_table(c, base, i + 1),
            compact_table(c, base, i + 2),
            compact_table(c, base, i + 3),
        ],
        seq![
            c.registers[i].len() as u32,
            c.registers[i + 1].len() as u32,
            c.registers[i + 2].len() as u32,
            c.registers[i + 3].len() as u32,
        ],
        word_address(base, compact_types_at(c) + total(c.types, s)),
        (c.types[s].len() / 3) as u32,
    )
}

/// How register `j` of table `i` is written.
pub open spec fn register_writer(c: Compact) -> spec_fn(int, int) -> Seq<u32> {
    |i: int, j: int| seq![c.registers[i][j].0, c.registers[i][j].1]
}

/// How pointer `j` of table `i` is written: the address of a register of the
/// same table.
pub open spec fn compact_pointer_writer(c: Compact, base: u64) -> spec_fn(int, int) -> Seq<u32> {
    |i: int, j: int|
        quad(word_address(base, 32 + 2 * total(c.registers, i) + 2 * c.pointers[i][j]))
}

/// How DWORD `j` of the types of set `i` is written.
pub open spec fn type_writer(c: Compact) -> spec_fn(int, int) -> Seq<u32> {
    |i: int, j: int| seq![c.types[i][j]]
}

/// The compact image at `base`: two headers, the registers, pointers into them,
/// and the types.
pub open spec fn compact_image(c: Compact, base: u64) -> Seq<u32> {
    compact_header(c, base, 0) + compact_header(c, base, 1) + flat(
        c.registers,
        register_writer(c),
        8,
    ) + flat(c.pointers, compact_pointer_writer(c, base), 8) + flat(c.types, type_writer(c), 2)
}

/// A compact image has the length that was asked for.
pub proof fn law_compact_image_length(c: Compact, base: u64)
    requires
        c.registers.len() == 8,
        c.pointers.len() == 8,
        c.types.len() == 2,
    ensures
        compact_image(c, base).len() == compact_dwords(c),
{
    lemma_flat_len(c.registers, register_writer(c), 8, 2);
    lemma_flat_len(c.pointers, compact_pointer_writer(c, base), 8, 2);
    lemma_flat_len(c.types, type_writer(c), 2, 1);
}

/// Copy a list.
fn copy_list<T: Copy>(v: &Vec<T>) -> (r: Vec<T>)
    ensures
        r@ == v@,
{
    let mut out: Vec<T> = Vec::new();
    let mut i: usize = 0;
    while i < v.len()
        invariant
            i <= v@.len(),
            out@ =~= v@.take(i as int),
        decreases v@.len() - i,
    {
        out.push(v[i]);
        i += 1;
    }
    assert(v@.take(i as int) =~= v@);
    out
}

/// Append four lists of `v`.
fn push_four<T: Copy>(out: &mut Vec<Vec<T>>, v: &Vec<Vec<T>>)
    ensures
        lists(final(out)@) == lists(old(out)@) + four(lists(v@)),
{
    let ghost before = lists(out@);
    let mut i: usize = 0;
    assert(lists(out@) =~= before + four(lists(v@)).take(0));
    while i < 4
        invariant
            i <= 4,
            lists(out@) =~= before + four(lists(v@)).take(i as int),
        decreases 4 - i,
    {
        let t: Vec<T> = if i < v.len() {
            copy_list(&v[i])
        } else {
            Vec::new()
        };
        assert(t@ =~= four(lists(v@))[i as int]);
        let ghost mid = out@;
        out.push(t);
        assert(lists(out@) =~= lists(mid).push(t@));
        assert(four(lists(v@)).take(i + 1) =~= four(lists(v@)).take(i as int).push(t@));
        i += 1;
    }
    assert(four(lists(v@)).take(4) =~= four(lists(v@)));
}

/// The compact sets as plain lists, with their running totals.
struct CompactLists {
    registers: Vec<Vec<(u32, u32)>>,
    pointers: Vec<Vec<u32>>,
    types: Vec<Vec<u32>>,
    register_totals: Vec<u64>,
    pointer_totals: Vec<u64>,
    type_totals: Vec<u64>,
}

/// `t` holds the running totals of `l`.
spec fn totals_of<T>(t: Seq<u64>, l: Seq<Seq<T>>) -> bool {
    &&& t.len() == l.len() + 1
    &&& forall|k: int| #![trigger t[k]] 0 <= k <= l.len() ==> t[k] == total(l, k) && t[k]
        <= 0x4000_0000
}

impl CompactLists {
    spec fn is(self, c: Compact) -> bool {
        &&& lists(self.registers@) == c.registers
        &&& lists(self.pointers@) == c.pointers
        &&& lists(self.types@) == c.types
        &&& c.registers.len() == 8
        &&& c.pointers.len() == 8
        &&& c.types.len() == 2
        &&& totals_of(self.register_totals@, c.registers)
        &&& totals_of(self.pointer_totals@, c.pointers)
        &&& totals_of(self.type_totals@, c.types)
    }
}

/// The most entries of each kind that a compact image may have.
pub const MAX_COMPACT_ENTRIES: u64 = 0x4000_0000;

/// Each kind of entry stays within its bound.
pub open spec fn compact_fits(c: Compact) -> bool {
    total(c.registers, 8) <= MAX_COMPACT_ENTRIES && total(c.pointers, 8) <= MAX_COMPACT_ENTRIES
        && total(c.types, 2) <= MAX_COMPACT_ENTRIES
}

/// Copy the compact sets out of the context; `None` when they are too large.
fn compact_lists(ctx: &HleContext) -> (r: Option<CompactLists>)
    ensures
        r is Some == compact_fits(compact_sets(ctx@)),
        r is Some ==> r->0.is(compact_sets(ctx@)),
{
    let ghost c = compact_sets(ctx@);
    let mut registers: Vec<Vec<(u32, u32)>> = Vec::new();
    push_four(&mut registers, &ctx.defaults_public.registers);
    push_four(&mut registers, &ctx.defaults_internal.registers);
    let mut pointers: Vec<Vec<u32>> = Vec::new();
    push_four(&mut pointers, &ctx.defaults_public.pointer_offsets);
    push_four(&mut pointers, &ctx.defaults_internal.pointer_offsets);
    let types: Vec<Vec<u32>> = vec![
        copy_list(&ctx.defaults_public.types),
        copy_list(&ctx.defaults_internal.types),
    ];
    proof {
        assert(lists(ctx.defaults_public.registers@) =~= ctx.defaults_public@.registers);
        assert(lists(ctx.defaults_internal.registers@) =~= ctx.defaults_internal@.registers);
        assert(lists(ctx.defaults_public.pointer_offsets@) =~= ctx.defaults_public@.pointers);
        assert(lists(ctx.defaults_internal.pointer_offsets@) =~= ctx.defaults_internal@.pointers);
        assert(lists(registers@) =~= c.registers);
        assert(lists(pointers@) =~= c.pointers);
        assert(lists(types@) =~= c.types);
    }
    match (
        running_totals(&registers, MAX_COMPACT_ENTRIES),
        running_totals(&pointers, MAX_COMPACT_ENTRIES),
        running_totals(&types, MAX_COMPACT_ENTRIES),
    ) {
        (Some(register_totals), Some(pointer_totals), Some(type_totals)) => Some(
            CompactLists {
                registers,
                pointers,
                types,
                register_totals,
                pointer_totals,
                type_totals,
            },
        ),
        _ => None,
    }
}

/// Append all registers.
fn push_registers(out: &mut Vec<u32>, c: &CompactLists, Ghost(g): Ghost<Compact>)
    requires
        c.is(g),
    ensures
        final(out)@ == old(out)@ + flat(g.registers, register_writer(g), 8),
{
    let ghost before = out@;
    let ghost f = register_writer(g);
    let mut i: usize = 0;
    assert(out@ =~= before + flat(g.registers, f, 0));
    while i < 8
        invariant
            i <= 8,
            c.is(g),
            f == register_writer(g),
            out@ == before + flat(g.registers, f, i as int),
        decreases 8 - i,
    {
        assert(c.registers@.len() == lists(c.registers@).len());
        let t = &c.registers[i];
        let ghost start = before + flat(g.registers, f, i as int);
        let mut j: usize = 0;
        assert(out@ =~= start + run_of(f, i as int, 0));
        assert(g.registers[i as int] == t@);
        while j < t.len()
            invariant
                f == register_writer(g),
                g.registers[i as int] == t@,
                j <= t@.len(),
                out@ == start + run_of(f, i as int, j as int),
            decreases t@.len() - j,
        {
            let ghost mid = out@;
            out.push(t[j].0);
            out.push(t[j].1);
            assert(f(i as int, j as int) == seq![t@[j as int].0, t@[j as int].1]);
            assert(out@ =~= mid + f(i as int, j as int));
            assert(out@ =~= start + run_of(f, i as int, j + 1));
            j += 1;
        }
        assert(out@ =~= before + flat(g.registers, f, i + 1));
        i += 1;
    }
}

/// Append all pointers.
fn push_compact_pointers(out: &mut Vec<u32>, c: &CompactLists, base: u64, Ghost(g): Ghost<Compact>)
    requires
        c.is(g),
    ensures
        final(out)@ == old(out)@ + flat(g.pointers, compact_pointer_writer(g, base), 8),
{
    let ghost before = out@;
    let ghost f = compact_pointer_writer(g, base);
    let mut i: usize = 0;
    assert(out@ =~= before + flat(g.pointers, f, 0));
    while i < 8
        invariant
            i <= 8,
            c.is(g),
            f == compact_pointer_writer(g, base),
            out@ == before + flat(g.pointers, f, i as int),
        decreases 8 - i,
    {
        assert(c.pointers@.len() == lists(c.pointers@).len());
        let t = &c.pointers[i];
        let first: u64 = c.register_totals[i];
        let ghost start = before + flat(g.pointers, f, i as int);
        let mut j: usize = 0;
        assert(out@ =~= start + run_of(f, i as int, 0));
        assert(g.pointers[i as int] == t@);
        while j < t.len()
            invariant
                f == compact_pointer_writer(g, base),
                g.pointers[i as int] == t@,
                first == total(g.registers, i as int),
                first <= 0x4000_0000,
                j <= t@.len(),
                out@ == start + run_of(f, i as int, j as int),
            decreases t@.len() - j,
        {
            let words: u64 = 32 + 2 * first + 2 * (t[j] as u64);
            push_quad(out, base.wrapping_add(4 * words));
            assert(f(i as int, j as int) == quad(word_address(base, words as int)));
            assert(out@ =~= start + run_of(f, i as int, j + 1));
            j += 1;
        }
        assert(out@ =~= before + flat(g.pointers, f, i + 1));
        i += 1;
    }
}

/// Append the types of both sets.
fn push_types(out: &mut Vec<u32>, c: &CompactLists, Ghost(g): Ghost<Compact>)
    requires
        c.is(g),
    ensures
        final(out)@ == old(out)@ + flat(g.types, type_writer(g), 2),
{
    let ghost before = out@;
    let ghost f = type_writer(g);
    let mut i: usize = 0;
    assert(out@ =~= before + flat(g.types, f, 0));
    while i < 2
        invariant
            i <= 2,
            c.is(g),
            f == type_writer(g),
            out@ == before + flat(g.types, f, i as int),
        decreases 2 - i,
    {
        assert(c.types@.len() == lists(c.types@).len());
        let t = &c.types[i];
        let ghost start = before + flat(g.types, f, i as int);
        let mut j: usize = 0;
        assert(out@ =~= start + run_of(f, i as int, 0));
        assert(g.types[i as int] == t@);
        while j < t.len()
            invariant
                f == type_writer(g),
                g.types[i as int] == t@,
                j <= t@.len(),
                out@ == start + run_of(f, i as int, j as int),
            decreases t@.len() - j,
        {
            let ghost mid = out@;
            out.push(t[j]);
            assert(f(i as int, j as int) == seq![t@[j as int]]);
            assert(out@ =~= mid + f(i as int, j as int));
            assert(out@ =~= start + run_of(f, i as int, j + 1));
            j += 1;
        }
        assert(out@ =~= before + flat(g.types, f, i + 1));
        i += 1;
    }
}

/// The address of pointer table `i`.
fn compact_table_address(c: &CompactLists, base: u64, i: usize, Ghost(g): Ghost<Compact>) -> (r:
    u64)
    requires
        c.is(g),
        i < 8,
    ensures
        r == compact_table(g, base, i as int),
{
    assert(c.pointers@.len() == lists(c.pointers@).len());
    assert(g.pointers[i as int] == c.pointers@[i as int]@);
    assert(c.register_totals@[8] == total(g.registers, 8));
    assert(c.pointer_totals@[i as int] == total(g.pointers, i as int));
    if c.pointers[i].len() == 0 {
        return 0;
    }
    base.wrapping_add(4 * (32 + 2 * c.register_totals[8] + 2 * c.pointer_totals[i]))
}

/// Append the header of set `s`.
fn push_compact_header(
    out: &mut Vec<u32>,
    c: &CompactLists,
    base: u64,
    s: usize,
    Ghost(g): Ghost<Compact>,
)
    requires
        c.is(g),
        s < 2,
    ensures
        final(out)@ == old(out)@ + compact_header(g, base, s as int),
{
    let i: usize = 4 * s;
    proof {
        assert(c.registers@.len() == lists(c.registers@).len());
        assert(c.types@.len() == lists(c.types@).len());
        assert(g.registers[i as int] == c.registers@[i as int]@);
        assert(g.registers[i + 1] == c.registers@[i + 1]@);
        assert(g.registers[i + 2] == c.registers@[i + 2]@);
        assert(g.registers[i + 3] == c.registers@[i + 3]@);
        assert(g.types[s as int] == c.types@[s as int]@);
        assert(c.register_totals@[8] == total(g.registers, 8));
        assert(c.pointer_totals@[8] == total(g.pointers, 8));
        assert(c.type_totals@[s as int] == total(g.types, s as int));
    }
    let p: [u64; 4] = [
        compact_table_address(c, base, i, Ghost(g)),
        compact_table_address(c, base, i + 1, Ghost(g)),
        compact_table_address(c, base, i + 2, Ghost(g)),
        compact_table_address(c, base, i + 3, Ghost(g)),
    ];
    let counts: [u32; 4] = [
        c.registers[i].len() as u32,
        c.registers[i + 1].len() as u32,
        c.registers[i + 2].len() as u32,
        c.registers[i + 3].len() as u32,
    ];
    let words: u64 = 32 + 2 * c.register_totals[8] + 2 * c.pointer_totals[8] + c.type_totals[s];
    push_header(
        out,
        &p,
        &counts,
        base.wrapping_add(4 * words),
        (c.types[s].len() / 3) as u32,
    );
    proof {
        assert(p@ =~= seq![
            compact_table(g, base, i as int),
            compact_table(g, base, i + 1),
            compact_table(g, base, i + 2),
            compact_table(g, base, i + 3),
        ]);
        assert(counts@ =~= seq![
            g.registers[i as int].len() as u32,
            g.registers[i + 1].len() as u32,
            g.registers[i + 2].len() as u32,
            g.registers[i + 3].len() as u32,
        ]);
    }
}

/// Render the compact image at `base`.
fn render_compact(c: &CompactLists, base: u64, Ghost(g): Ghost<Compact>) -> (r: Vec<u32>)
    requires
        c.is(g),
    ensures
        r@ == compact_image(g, base),
{
    let mut out: Vec<u32> = Vec::new();
    push_compact_header(&mut out, c, base, 0, Ghost(g));
    push_compact_header(&mut out, c, base, 1, Ghost(g));
    push_registers(&mut out, c, Ghost(g));
    push_compact_pointers(&mut out, c, base, Ghost(g));
    push_types(&mut out, c, Ghost(g));
    assert(out@ =~= compact_image(g, base));
    out
}

/// Versions that are served from the compact sets.
pub open spec fn is_compact(version: u32) -> bool {
    version == 10 || version == 12
}

/// The image of a version at `base`.
pub open spec fn image(m: Machine, version: u32, base: u64) -> Seq<u32> {
    if is_compact(version) {
        compact_image(compact_sets(m), base)
    } else {
        table_image(tables(), base)
    }
}

/// The size of a version's image in bytes, or `None` when it is too large.
pub open spec fn image_bytes(m: Machine, version: u32) -> Option<u64> {
    if !is_compact(version) {
        Some((4 * table_dwords(tables())) as u64)
    } else if compact_fits(compact_sets(m)) {
        Some((4 * compact_dwords(compact_sets(m))) as u64)
    } else {
        None
    }
}

/// What a request for the register defaults needs.
#[derive(Clone, Copy)]
pub enum DefaultsState {
    /// Allocate this many bytes, 8-byte aligned.
    Allocate { bytes: u64, version: u32, offset: u64 },
    /// The call returns this address.
    Done { address: u64 },
}

/// The defaults are placed once; later requests get the same image, whatever
/// version they ask for. An image that is too large gives null.
pub open spec fn defaults_request(m: Machine, version: u32, offset: u64) -> DefaultsState {
    let placed = m.agc.register_defaults_addr;
    if placed != 0 {
        DefaultsState::Done { address: placed.wrapping_add(offset) }
    } else {
        match image_bytes(m, version) {
            Some(bytes) => DefaultsState::Allocate { bytes, version, offset },
            None => DefaultsState::Done { address: 0 },
        }
    }
}

/// Ask for the register defaults of a version.
pub fn register_defaults_base(ctx: &HleContext, args: &[u64], offset: u64) -> (r: DefaultsState)
    ensures
        r == defaults_request(ctx@, lo(arg(args@, 0)), offset),
{
    let version: u32 = lo32(get_arg(args, 0));
    let placed: u64 = ctx.kernel.agc.register_defaults_addr;
    if placed != 0 {
        return DefaultsState::Done { address: placed.wrapping_add(offset) };
    }
    if version == 10 || version == 12 {
        let ghost g = compact_sets(ctx@);
        match compact_lists(ctx) {
            Some(c) => {
                proof {
                    assert(c.register_totals@[8] == total(g.registers, 8));
                    assert(c.pointer_totals@[8] == total(g.pointers, 8));
                    assert(c.type_totals@[2] == total(g.types, 2));
                }
                let words: u64 = 32 + 2 * c.register_totals[8] + 2 * c.pointer_totals[8]
                    + c.type_totals[2];
                DefaultsState::Allocate { bytes: 4 * words, version, offset }
            },
            None => DefaultsState::Done { address: 0 },
        }
    } else {
        DefaultsState::Allocate { bytes: 4 * measure_tables(), version, offset }
    }
}

/// `sceAgcGetRegisterDefaults2(version)`: the public set.
pub fn hle_get_register_defaults2(ctx: &HleContext, args: &[u64]) -> (r: DefaultsState)
    ensures
        r == defaults_request(ctx@, lo(arg(args@, 0)), 0),
{
    register_defaults_base(ctx, args, 0)
}

/// `sceAgcGetRegisterDefaults2Internal(version)`: the internal set.
pub fn hle_get_register_defaults2_internal(ctx: &HleContext, args: &[u64]) -> (r: DefaultsState)
    ensures
        r == defaults_request(ctx@, lo(arg(args@, 0)), REG_DEFAULTS_HEADER_BYTES),
{
    register_defaults_base(ctx, args, REG_DEFAULTS_HEADER_BYTES)
}

/// The machine with the defaults placed at `base`.
pub open spec fn with_defaults(m: Machine, base: u64) -> Machine {
    Machine { agc: AgcState { register_defaults_addr: base, ..m.agc }, ..m }
}

/// Fill the block at `base`: the machine, the address that the call returns,
/// and the block to give back, if any. Without a block, and when the image
/// cannot be written, the result is null. When another caller placed the
/// defaults meanwhile, theirs are served.
pub open spec fn place_defaults(m: Machine, version: u32, offset: u64, base: Option<u64>) -> (
    Machine,
    u64,
    Option<u64>,
) {
    match base {
        None => (m, 0, None),
        Some(at) => if at == 0 || image_bytes(m, version) is None {
            (m, 0, None)
        } else {
            let (mem, ok) = put(m.mem, at as int, bytes_of(image(m, version, at)));
            let placed = m.agc.register_defaults_addr;
            if !ok {
                (m, 0, Some(at))
            } else if placed != 0 {
                (m.with_mem(mem), placed.wrapping_add(offset), Some(at))
            } else {
                (with_defaults(m.with_mem(mem), at), at.wrapping_add(offset), None)
            }
        },
    }
}

/// Take the block for the register defaults and fill it.
pub fn defaults_allocated(ctx: &mut HleContext, version: u32, offset: u64, base: Option<u64>) -> (r:
    (u64, Option<u64>))
    ensures
        final(ctx)@ == place_defaults(old(ctx)@, version, offset, base).0,
        r.0 == place_defaults(old(ctx)@, version, offset, base).1,
        r.1 == place_defaults(old(ctx)@, version, offset, base).2,
{
    let at: u64 = match base {
        Some(at) => at,
        None => {
            return (0, None);
        },
    };
    if at == 0 {
        return (0, None);
    }
    let words: Vec<u32> = if version == 10 || version == 12 {
        match compact_lists(ctx) {
            Some(c) => render_compact(&c, at, Ghost(compact_sets(ctx@))),
            None => {
                return (0, None);
            },
        }
    } else {
        render_tables(at)
    };
    let bytes = to_bytes(words.as_slice());
    if !ctx.mem.write(at, 0, bytes.as_slice()) {
        return (0, Some(at));
    }
    let placed: u64 = ctx.kernel.agc.register_defaults_addr;
    if placed != 0 {
        return (placed.wrapping_add(offset), Some(at));
    }
    ctx.kernel.agc.register_defaults_addr = at;
    (at.wrapping_add(offset), None)
}

/// The image of the version that was asked for stands where it was placed.
pub proof fn law_placed_image_reads_back(m: Machine, version: u32, offset: u64, base: Option<u64>)
    requires
        m.agc.register_defaults_addr == 0,
        place_defaults(m, version, offset, base).1 != 0,
        place_defaults(m, version, offset, base).2 is None,
    ensures
        ({
            let words = image(m, version, base->0);
            load_words(
                place_defaults(m, version, offset, base).0.mem,
                base->0 as int,
                words.len(),
            ) == Some(words)
        }),
{
    law_words_read_back(m.mem, base->0 as int, image(m, version, base->0));
}

/// Once the defaults are placed, every later request, whatever version and
/// offset it asks for, is answered from the same image: nothing is allocated and
/// nothing written. The public set stands at its start, the internal set a
/// header behind it.
pub proof fn law_defaults_are_placed_once(
    m: Machine,
    version: u32,
    offset: u64,
    base: Option<u64>,
    later: u32,
    later_offset: u64,
)
    requires
        m.agc.register_defaults_addr == 0,
        place_defaults(m, version, offset, base).1 != 0,
        place_defaults(m, version, offset, base).2 is None,
    ensures
        ({
            let (after, address, _) = place_defaults(m, version, offset, base);
            &&& base is Some
            &&& address == base->0.wrapping_add(offset)
            &&& after.agc.register_defaults_addr == base->0
            &&& defaults_request(after, later, later_offset) == (DefaultsState::Done {
                address: base->0.wrapping_add(later_offset),
            })
        }),
{
}

} // verus!
