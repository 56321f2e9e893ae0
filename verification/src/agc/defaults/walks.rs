//! What a guest finds when it follows the pointers of the register defaults in
//! memory, from the address that it was given.
use vstd::prelude::*;
use crate::agc::defaults::{
    compact_dwords, compact_header, compact_image, compact_pointers_at, compact_sets,
    compact_types_at, entries, info_at, law_compact_image_can_be_walked, law_compact_image_length,
    law_compact_types_can_be_walked, law_placed_image_reads_back, law_table_image_length,
    law_tables_can_be_walked, lemma_compact_parts, lemma_table_parts, lemma_total_mono,
    place_defaults, pointers_at, quad, register_count, set_header, table_dwords, table_image,
    tables, total, triples_at, word_address, Compact, DefaultsState, Entry,
};
use crate::agc::fields::{law_halves, lemma_word, lemma_word_pair};
use crate::context::{arg, Machine};
use crate::libsce_agc::{effect, AgcExport};
use crate::mem::{load_u32, load_u64, load_words, Mem};

verus! {

/// The defaults were placed at `base`, for the first time.
pub open spec fn placed_at(m: Machine, version: u32, base: u64, after: Machine) -> bool {
    let r = place_defaults(m, version, 0, Some(base));
    &&& m.agc.register_defaults_addr == 0
    &&& r.1 != 0
    &&& r.2 is None
    &&& after == r.0
}

/// A pointer that stands in a row of words.
proof fn lemma_pointer(m: Mem, base: u64, w: Seq<u32>, at: int, target: int)
    requires
        load_words(m, base as int, w.len()) == Some(w),
        0 <= at,
        at + 2 <= w.len(),
        w.subrange(at, at + 2) == quad(word_address(base, target)),
        0 <= target,
        base + 4 * target <= u64::MAX,
    ensures
        load_u64(m, base + 4 * at) == Some((base + 4 * target) as u64),
{
    let v = word_address(base, target);
    assert(w.subrange(at, at + 2)[0] == w[at] && w.subrange(at, at + 2)[1] == w[at + 1]);
    lemma_word_pair(m, base as int, w, at);
    law_halves(v);
    assert(v == base + 4 * target);
}

/// What stands in memory of entry `j` of table `i`, three tables to a set: the header
/// of a set (0x40 bytes each) holds, for each of its tables, the address of the table's
/// pointers (8 bytes each) and the number of its registers (4 bytes each, at 0x20); a
/// pointer leads to an entry's registers, an offset and a value each, behind the
/// entry's type; and the list of types (at 0x30, with its length at 0x38) has the
/// entry's type and place, 12 bytes each.
pub open spec fn entry_is_found(m: Mem, base: u64, ts: Seq<Seq<Entry>>, i: int, j: int) -> bool {
    let e = ts[i][j];
    let header = base + 0x40 * (i / 3);
    let pointers = load_u64(m, header + 8 * (i % 3));
    let registers = load_u64(m, pointers->0 + 8 * j);
    let types = load_u64(m, header + 0x30);
    let place = total(ts, i) - total(ts, 3 * (i / 3)) + j;
    &&& pointers is Some && registers is Some && types is Some
    &&& load_u32(m, registers->0 - 4) == Some(e.type_hash)
    &&& forall|k: int|
        0 <= k < e.registers.len() && k < 16 ==> load_u32(m, registers->0 + 8 * k) == Some(
            (#[trigger] e.registers[k]).0,
        ) && load_u32(m, registers->0 + 8 * k + 4) == Some(e.registers[k].1)
    &&& load_u32(m, header + 0x20 + 4 * (i % 3)) == Some(
        register_count(ts[i], ts[i].len() as int) as u32,
    )
    &&& load_u32(m, header + 0x38) == Some(
        (total(ts, 3 * (i / 3) + 3) - total(ts, 3 * (i / 3))) as u32,
    )
    &&& load_u32(m, types->0 + 12 * place) == Some(e.type_hash)
    &&& load_u32(m, types->0 + 12 * place + 4) == Some((4 * j + i % 3) as u32)
}

/// The tables' image in memory: every entry is found.
pub proof fn law_defaults_are_found(
    m: Machine,
    version: u32,
    base: u64,
    after: Machine,
    i: int,
    j: int,
)
    requires
        placed_at(m, version, base, after),
        version != 10 && version != 12,
        base + 4 * table_dwords(tables()) <= u64::MAX,
        0 <= i < 6,
        0 <= j < tables()[i].len(),
    ensures
        entry_is_found(after.mem, base, tables(), i, j),
{
    law_placed_image_reads_back(m, version, 0, Some(base));
    assert(tables().len() == 6);
    lemma_entry_in_image(tables(), base, i, i / 3, j);
    lemma_entry_found(after.mem, base, tables(), table_image(tables(), base), i, i / 3, j);
}

/// What an image has of entry `j` of table `i`, which is in set `s`.
spec fn entry_in_image(
    ts: Seq<Seq<Entry>>,
    base: u64,
    w: Seq<u32>,
    i: int,
    s: int,
    j: int,
) -> bool {
    let e = ts[i][j];
    let pointers = pointers_at(ts) + 2 * total(ts, i);
    let registers = info_at(ts, i) + 33 * j + 1;
    let types = triples_at(ts) + 3 * total(ts, 3 * s);
    let triple = triples_at(ts) + 3 * (total(ts, i) + j);
    let header = 16 * s + 2 * (i - 3 * s);
    &&& w.len() == table_dwords(ts)
    &&& w.subrange(header, header + 2) == quad(word_address(base, pointers))
    &&& w.subrange(pointers + 2 * j, pointers + 2 * j + 2) == quad(word_address(base, registers))
    &&& w[registers - 1] == e.type_hash
    &&& forall|k: int|
        0 <= k < e.registers.len() && k < 16 ==> (w[registers + 2 * k], w[registers + 2 * k + 1])
            == #[trigger] e.registers[k]
    &&& w[16 * s + 8 + (i - 3 * s)] == register_count(ts[i], ts[i].len() as int) as u32
    &&& w[16 * s + 14] == (total(ts, 3 * s + 3) - total(ts, 3 * s)) as u32
    &&& w.subrange(16 * s + 12, 16 * s + 14) == quad(word_address(base, types))
    &&& w.subrange(triple, triple + 3) == seq![e.type_hash, (4 * j + (i - 3 * s)) as u32, 0u32]
}

proof fn lemma_entry_in_image(ts: Seq<Seq<Entry>>, base: u64, i: int, s: int, j: int)
    requires
        ts.len() == 6,
        0 <= s < 2,
        3 * s <= i < 3 * s + 3,
        0 <= j < ts[i].len(),
    ensures
        entry_in_image(ts, base, table_image(ts, base), i, s, j),
{
    assert(i / 3 == s && i % 3 == i - 3 * s);
    law_table_image_length(ts, base);
    law_tables_can_be_walked(ts, base, i, j);
    lemma_set_words(ts, base, table_image(ts, base), s);
}

proof fn lemma_entry_found(
    mem: Mem,
    base: u64,
    ts: Seq<Seq<Entry>>,
    w: Seq<u32>,
    i: int,
    s: int,
    j: int,
)
    requires
        ts.len() == 6,
        load_words(mem, base as int, w.len()) == Some(w),
        base + 4 * w.len() <= u64::MAX,
        0 <= s < 2,
        3 * s <= i < 3 * s + 3,
        0 <= j < ts[i].len(),
        entry_in_image(ts, base, w, i, s, j),
    ensures
        entry_is_found(mem, base, ts, i, j),
{
    assert(i / 3 == s && i % 3 == i - 3 * s);
    lemma_entry_places(ts, i, j);
    let pointers = pointers_at(ts) + 2 * total(ts, i);
    let registers = info_at(ts, i) + 33 * j + 1;
    let types = triples_at(ts) + 3 * total(ts, 3 * s);
    let triple = triples_at(ts) + 3 * (total(ts, i) + j);
    lemma_follow(
        mem,
        base,
        w,
        16 * s + 2 * (i - 3 * s),
        pointers,
        registers,
        j,
        ts[i][j],
    );
    lemma_follow_types(
        mem,
        base,
        w,
        s,
        16 * s + 8 + (i - 3 * s),
        types,
        triple,
        ts[i][j].type_hash,
        (4 * j + (i - 3 * s)) as u32,
    );
}

/// The parts of an entry lie inside the image.
proof fn lemma_entry_places(ts: Seq<Seq<Entry>>, i: int, j: int)
    requires
        ts.len() == 6,
        0 <= i < 6,
        0 <= j < ts[i].len(),
    ensures
        ({
            let pointers = pointers_at(ts) + 2 * total(ts, i);
            let registers = info_at(ts, i) + 33 * j + 1;
            let triple = triples_at(ts) + 3 * (total(ts, i) + j);
            let n = table_dwords(ts);
            &&& 32 <= pointers && pointers + 2 * j + 2 <= n
            &&& 33 <= registers && registers + 32 <= n
            &&& 32 <= triple && triple + 3 <= n
            &&& 0 <= triples_at(ts) + 3 * total(ts, 3 * (i / 3)) <= triple
        }),
{
    lemma_total_mono(ts, 0, i);
    lemma_total_mono(ts, i + 1, 6);
    lemma_total_mono(ts, 0, 3 * (i / 3));
    lemma_total_mono(ts, 3 * (i / 3), i);
    assert(total(ts, i + 1) == total(ts, i) + ts[i].len());
}

/// Following a pointer to the pointers of a table, and one of these to an entry.
proof fn lemma_follow(
    mem: Mem,
    base: u64,
    w: Seq<u32>,
    header: int,
    pointers: int,
    registers: int,
    j: int,
    e: Entry,
)
    requires
        load_words(mem, base as int, w.len()) == Some(w),
        base + 4 * w.len() <= u64::MAX,
        0 <= header && header + 2 <= w.len(),
        0 <= j,
        0 <= pointers && pointers + 2 * j + 2 <= w.len(),
        1 <= registers && registers + 32 <= w.len(),
        w.subrange(header, header + 2) == quad(word_address(base, pointers)),
        w.subrange(pointers + 2 * j, pointers + 2 * j + 2) == quad(word_address(base, registers)),
        w[registers - 1] == e.type_hash,
        forall|k: int|
            0 <= k < e.registers.len() && k < 16 ==> (w[registers + 2 * k], w[registers + 2 * k + 1])
                == #[trigger] e.registers[k],
    ensures
        load_u64(mem, base + 4 * header) == Some((base + 4 * pointers) as u64),
        load_u64(mem, base + 4 * pointers + 8 * j) == Some((base + 4 * registers) as u64),
        load_u32(mem, base + 4 * registers - 4) == Some(e.type_hash),
        forall|k: int|
            0 <= k < e.registers.len() && k < 16 ==> load_u32(mem, base + 4 * registers + 8 * k)
                == Some((#[trigger] e.registers[k]).0) && load_u32(
                mem,
                base + 4 * registers + 8 * k + 4,
            ) == Some(e.registers[k].1),
{
    lemma_pointer(mem, base, w, header, pointers);
    lemma_pointer(mem, base, w, pointers + 2 * j, registers);
    lemma_word(mem, base as int, w, registers - 1);
    assert forall|k: int| 0 <= k < e.registers.len() && k < 16 implies load_u32(
        mem,
        base + 4 * registers + 8 * k,
    ) == Some((#[trigger] e.registers[k]).0) && load_u32(
        mem,
        base + 4 * registers + 8 * k + 4,
    ) == Some(e.registers[k].1) by {
        assert((w[registers + 2 * k], w[registers + 2 * k + 1]) == e.registers[k]);
        lemma_word(mem, base as int, w, registers + 2 * k);
        lemma_word(mem, base as int, w, registers + 2 * k + 1);
    }
}

/// The counts of a set, and a type of its list.
proof fn lemma_follow_types(
    mem: Mem,
    base: u64,
    w: Seq<u32>,
    s: int,
    count: int,
    types: int,
    triple: int,
    hash: u32,
    place: u32,
)
    requires
        load_words(mem, base as int, w.len()) == Some(w),
        base + 4 * w.len() <= u64::MAX,
        0 <= s < 2,
        32 <= w.len(),
        0 <= count < 32,
        0 <= types <= triple,
        triple + 3 <= w.len(),
        w.subrange(16 * s + 12, 16 * s + 14) == quad(word_address(base, types)),
        w.subrange(triple, triple + 3) == seq![hash, place, 0u32],
    ensures
        load_u32(mem, base + 4 * count) == Some(w[count]),
        load_u32(mem, base + 0x40 * s + 0x38) == Some(w[16 * s + 14]),
        load_u64(mem, base + 0x40 * s + 0x30) == Some((base + 4 * types) as u64),
        load_u32(mem, base + 4 * triple) == Some(hash),
        load_u32(mem, base + 4 * triple + 4) == Some(place),
{
    lemma_word(mem, base as int, w, count);
    lemma_word(mem, base as int, w, 16 * s + 14);
    lemma_pointer(mem, base, w, 16 * s + 12, types);
    assert(w.subrange(triple, triple + 3)[0] == w[triple]);
    assert(w.subrange(triple, triple + 3)[1] == w[triple + 1]);
    lemma_word(mem, base as int, w, triple);
    lemma_word(mem, base as int, w, triple + 1);
}

/// The counts and the types in the header of a set.
proof fn lemma_set_words(ts: Seq<Seq<Entry>>, base: u64, w: Seq<u32>, s: int)
    requires
        ts.len() == 6,
        w == table_image(ts, base),
        0 <= s < 2,
    ensures
        w.len() >= 32,
        w[16 * s + 8] == register_count(ts[3 * s], ts[3 * s].len() as int) as u32,
        w[16 * s + 9] == register_count(ts[3 * s + 1], ts[3 * s + 1].len() as int) as u32,
        w[16 * s + 10] == register_count(ts[3 * s + 2], ts[3 * s + 2].len() as int) as u32,
        w[16 * s + 14] == (total(ts, 3 * s + 3) - total(ts, 3 * s)) as u32,
        w.subrange(16 * s + 12, 16 * s + 14) == quad(
            word_address(base, triples_at(ts) + 3 * total(ts, 3 * s)),
        ),
{
    lemma_table_parts(ts, base, w);
    let h = set_header(ts, base, s);
    assert(h.len() == 16);
    assert forall|x: int| 0 <= x < 16 implies #[trigger] h[x] == w[16 * s + x] by {
        if s == 0 {
            assert(set_header(ts, base, 0)[x] == w[x]);
        } else {
            assert(set_header(ts, base, 1)[x] == w[16 + x]);
        }
    }
    assert(h[8] == w[16 * s + 8] && h[9] == w[16 * s + 9] && h[10] == w[16 * s + 10]);
    assert(h[12] == w[16 * s + 12] && h[13] == w[16 * s + 13] && h[14] == w[16 * s + 14]);
    assert(w.subrange(16 * s + 12, 16 * s + 14) =~= quad(
        word_address(base, triples_at(ts) + 3 * total(ts, 3 * s)),
    ));
}

/// What stands in memory of pointer `j` of list `i`, four lists to a set, and of type
/// `k` of its set: the header of a set (0x40 bytes each) holds, for each of its lists,
/// the address of the list's pointers and the number of its registers; a pointer leads
/// to a register, an offset and a value; and the types stand where 0x30 says, three
/// DWORDs to each of as many as 0x38 says.
pub open spec fn compact_is_found(m: Mem, base: u64, c: Compact, i: int, j: int, k: int) -> bool {
    let header = base + 0x40 * (i / 4);
    let pointers = load_u64(m, header + 8 * (i % 4));
    let register = load_u64(m, pointers->0 + 8 * j);
    let types = load_u64(m, header + 0x30);
    let r = c.registers[i][c.pointers[i][j] as int];
    &&& pointers is Some && register is Some && types is Some
    &&& load_u32(m, register->0 as int) == Some(r.0)
    &&& load_u32(m, register->0 + 4) == Some(r.1)
    &&& load_u32(m, header + 0x20 + 4 * (i % 4)) == Some(c.registers[i].len() as u32)
    &&& load_u32(m, header + 0x38) == Some((c.types[i / 4].len() / 3) as u32)
    &&& load_u32(m, types->0 + 4 * k) == Some(c.types[i / 4][k])
}

/// The compact image in memory: every register and every type is found.
pub proof fn law_compact_defaults_are_found(
    m: Machine,
    version: u32,
    base: u64,
    after: Machine,
    i: int,
    j: int,
    k: int,
)
    requires
        placed_at(m, version, base, after),
        version == 10 || version == 12,
        base + 4 * compact_dwords(compact_sets(m)) <= u64::MAX,
        0 <= i < 8,
        0 <= j < compact_sets(m).pointers[i].len(),
        compact_sets(m).pointers[i][j] < compact_sets(m).registers[i].len(),
        0 <= k < compact_sets(m).types[i / 4].len(),
    ensures
        compact_is_found(after.mem, base, compact_sets(m), i, j, k),
{
    law_placed_image_reads_back(m, version, 0, Some(base));
    let c = compact_sets(m);
    assert(c.registers.len() == 8 && c.pointers.len() == 8 && c.types.len() == 2);
    lemma_compact_in_image(c, base, i, i / 4, j, k);
    lemma_compact_found(after.mem, base, c, compact_image(c, base), i, i / 4, j, k);
}

/// What a compact image has of pointer `j` of list `i`, which is in set `s`, and of
/// type `k` of that set.
spec fn compact_in_image(
    c: Compact,
    base: u64,
    w: Seq<u32>,
    i: int,
    s: int,
    j: int,
    k: int,
) -> bool {
    let header = 16 * s + 2 * (i - 4 * s);
    let pointers = compact_pointers_at(c) + 2 * total(c.pointers, i);
    let register = 32 + 2 * (total(c.registers, i) + c.pointers[i][j]);
    let types = compact_types_at(c) + total(c.types, s);
    &&& w.len() == compact_dwords(c)
    &&& w.subrange(header, header + 2) == quad(word_address(base, pointers))
    &&& w.subrange(pointers + 2 * j, pointers + 2 * j + 2) == quad(word_address(base, register))
    &&& (w[register], w[register + 1]) == c.registers[i][c.pointers[i][j] as int]
    &&& w.subrange(16 * s + 12, 16 * s + 14) == quad(word_address(base, types))
    &&& w[16 * s + 14] == (c.types[s].len() / 3) as u32
    &&& w[types + k] == c.types[s][k]
    &&& w[16 * s + 8 + (i - 4 * s)] == c.registers[i].len() as u32
}

proof fn lemma_compact_in_image(c: Compact, base: u64, i: int, s: int, j: int, k: int)
    requires
        c.registers.len() == 8,
        c.pointers.len() == 8,
        c.types.len() == 2,
        0 <= s < 2,
        4 * s <= i < 4 * s + 4,
        0 <= j < c.pointers[i].len(),
        c.pointers[i][j] < c.registers[i].len(),
        0 <= k < c.types[s].len(),
    ensures
        compact_in_image(c, base, compact_image(c, base), i, s, j, k),
{
    assert(i / 4 == s && i % 4 == i - 4 * s);
    law_compact_image_length(c, base);
    law_compact_image_can_be_walked(c, base, i, j);
    law_compact_types_can_be_walked(c, base, s, k);
    lemma_compact_counts(c, base, compact_image(c, base), i);
}

proof fn lemma_compact_found(
    mem: Mem,
    base: u64,
    c: Compact,
    w: Seq<u32>,
    i: int,
    s: int,
    j: int,
    k: int,
)
    requires
        c.registers.len() == 8,
        c.pointers.len() == 8,
        c.types.len() == 2,
        load_words(mem, base as int, w.len()) == Some(w),
        base + 4 * w.len() <= u64::MAX,
        0 <= s < 2,
        4 * s <= i < 4 * s + 4,
        0 <= j < c.pointers[i].len(),
        c.pointers[i][j] < c.registers[i].len(),
        0 <= k < c.types[s].len(),
        compact_in_image(c, base, w, i, s, j, k),
    ensures
        compact_is_found(mem, base, c, i, j, k),
{
    assert(i / 4 == s && i % 4 == i - 4 * s);
    lemma_compact_places(c, i, j, k);
    let pointers = compact_pointers_at(c) + 2 * total(c.pointers, i);
    let register = 32 + 2 * (total(c.registers, i) + c.pointers[i][j]);
    let types = compact_types_at(c) + total(c.types, s);
    lemma_pointer(mem, base, w, 16 * s + 2 * (i - 4 * s), pointers);
    lemma_pointer(mem, base, w, pointers + 2 * j, register);
    lemma_word(mem, base as int, w, register);
    lemma_word(mem, base as int, w, register + 1);
    lemma_pointer(mem, base, w, 16 * s + 12, types);
    lemma_word(mem, base as int, w, types + k);
    lemma_word(mem, base as int, w, 16 * s + 14);
    lemma_word(mem, base as int, w, 16 * s + 8 + (i - 4 * s));
}

proof fn lemma_compact_places(c: Compact, i: int, j: int, k: int)
    requires
        c.registers.len() == 8,
        c.pointers.len() == 8,
        c.types.len() == 2,
        0 <= i < 8,
    ensures
        ({
            let pointers = compact_pointers_at(c) + 2 * total(c.pointers, i);
            let registers = 32 + 2 * total(c.registers, i);
            let types = compact_types_at(c) + total(c.types, i / 4);
            let n = compact_dwords(c);
            &&& 32 <= pointers && pointers + 2 * c.pointers[i].len() <= n
            &&& 32 <= registers && registers + 2 * c.registers[i].len() <= n
            &&& 32 <= types && types + c.types[i / 4].len() <= n
        }),
{
    let s = i / 4;
    lemma_total_mono(c.registers, 0, i);
    lemma_total_mono(c.registers, i + 1, 8);
    lemma_total_mono(c.pointers, 0, i);
    lemma_total_mono(c.pointers, i + 1, 8);
    lemma_total_mono(c.types, 0, s);
    lemma_total_mono(c.types, s + 1, 2);
    assert(total(c.registers, i + 1) == total(c.registers, i) + c.registers[i].len());
    assert(total(c.pointers, i + 1) == total(c.pointers, i) + c.pointers[i].len());
    assert(total(c.types, s + 1) == total(c.types, s) + c.types[s].len());
}

proof fn lemma_compact_counts(c: Compact, base: u64, w: Seq<u32>, i: int)
    requires
        c.registers.len() == 8,
        c.pointers.len() == 8,
        c.types.len() == 2,
        w == compact_image(c, base),
        0 <= i < 8,
    ensures
        w[16 * (i / 4) + 8 + i % 4] == c.registers[i].len() as u32,
{
    lemma_compact_parts(c, base, w);
    let s = i / 4;
    let x = 8 + i % 4;
    let h = compact_header(c, base, s);
    if s == 0 {
        assert(compact_header(c, base, 0)[x] == w[x]);
    } else {
        assert(compact_header(c, base, 1)[x] == w[16 + x]);
    }
    assert(i == 4 * s || i == 4 * s + 1 || i == 4 * s + 2 || i == 4 * s + 3);
    assert(h[8] == c.registers[4 * s].len() as u32);
    assert(h[9] == c.registers[4 * s + 1].len() as u32);
    assert(h[10] == c.registers[4 * s + 2].len() as u32);
    assert(h[11] == c.registers[4 * s + 3].len() as u32);
}

/// The public set is asked for at the start of the image, the internal set 0x40 bytes
/// behind it; and once the image is placed both are answered from there.
pub proof fn law_defaults_requests(m: Machine, a: Seq<u64>)
    ensures
        ({
            let placed = m.agc.register_defaults_addr;
            let first = effect(AgcExport::GetRegisterDefaults2, m, a);
            let second = effect(AgcExport::GetRegisterDefaults2Internal, m, a);
            &&& first.0 == m && second.0 == m
            &&& first.1 is Defaults && second.1 is Defaults
            &&& placed != 0 ==> {
                &&& first.1->Defaults_0 == (DefaultsState::Done { address: placed })
                &&& placed + 0x40 <= u64::MAX ==> second.1->Defaults_0 == (DefaultsState::Done {
                    address: (placed + 0x40) as u64,
                })
            }
            &&& placed == 0 && first.1->Defaults_0 is Allocate ==> {
                &&& first.1->Defaults_0->Allocate_offset == 0
                &&& first.1->Defaults_0->Allocate_version == arg(a, 0) as u32
                &&& second.1->Defaults_0 is Allocate
                &&& second.1->Defaults_0->Allocate_offset == 0x40
                &&& second.1->Defaults_0->Allocate_bytes == first.1->Defaults_0->Allocate_bytes
            }
        }),
{
}

/// The rows that entries were made from: each register of each entry, with the type of
/// the entry.
pub open spec fn rows_of(e: Seq<Entry>) -> Seq<(u32, u32, u32)>
    decreases e.len(),
{
    if e.len() == 0 {
        Seq::empty()
    } else {
        rows_of(e.drop_last()) + e.last().registers.map_values(
            |r: (u32, u32)| (e.last().type_hash, r.0, r.1),
        )
    }
}

/// Grouping the rows of a table into entries loses nothing: the registers of the
/// entries, one entry after the other, are the rows; no entry is empty; and no two
/// entries that follow each other have the same type.
pub proof fn law_entries_keep_the_rows(rows: Seq<(u32, u32, u32)>)
    ensures
        rows_of(entries(rows)) == rows,
        forall|i: int|
            0 <= i < entries(rows).len() ==> (#[trigger] entries(rows)[i]).registers.len() > 0,
        forall|i: int|
            0 <= i < entries(rows).len() - 1 ==> (#[trigger] entries(rows)[i]).type_hash != entries(
                rows,
            )[i + 1].type_hash,
    decreases rows.len(),
{
    if rows.len() > 0 {
        let init = rows.drop_last();
        law_entries_keep_the_rows(init);
        let before = entries(init);
        let after = entries(rows);
        let (hash, offset, value) = rows.last();
        if before.len() > 0 && before.last().type_hash == hash {
            let head = before.drop_last();
            assert(after.drop_last() =~= head);
            let f = |r: (u32, u32)| (hash, r.0, r.1);
            let old = before.last().registers;
            assert(old.push((offset, value)).map_values(f) =~= old.map_values(f).push(
                (hash, offset, value),
            ));
            assert(rows_of(after) =~= rows_of(head) + old.map_values(f).push(
                (hash, offset, value),
            ));
            assert(rows_of(before) =~= rows_of(head) + old.map_values(f));
            assert(rows_of(after) =~= init.push(rows.last()));
            assert forall|i: int| 0 <= i < after.len() - 1 implies (#[trigger] after[i]).type_hash
                != after[i + 1].type_hash by {
                assert(after[i] == before[i]);
                assert(before[i].type_hash != before[i + 1].type_hash);
            }
            assert forall|i: int| 0 <= i < after.len() implies (
            #[trigger] after[i]).registers.len() > 0 by {
                if i < after.len() - 1 {
                    assert(after[i] == before[i]);
                }
            }
        } else {
            assert(after.drop_last() =~= before);
            let f = |r: (u32, u32)| (hash, r.0, r.1);
            assert(seq![(offset, value)].map_values(f) =~= seq![(hash, offset, value)]);
            assert(rows_of(after) =~= init + seq![(hash, offset, value)]);
            assert(init + seq![(hash, offset, value)] =~= rows);
            assert forall|i: int| 0 <= i < after.len() - 1 implies (#[trigger] after[i]).type_hash
                != after[i + 1].type_hash by {
                assert(after[i] == before[i]);
                if i + 1 < before.len() {
                    assert(after[i + 1] == before[i + 1]);
                    assert(before[i].type_hash != before[i + 1].type_hash);
                }
            }
            assert forall|i: int| 0 <= i < after.len() implies (
            #[trigger] after[i]).registers.len() > 0 by {
                if i < after.len() - 1 {
                    assert(after[i] == before[i]);
                }
            }
        }
        assert(init.push(rows.last()) =~= rows);
    }
}

/// The lists of a compact image are those of the public set, four of them, and then
/// those of the internal set; a list that a set does not have is empty.
pub proof fn law_compact_lists(m: Machine, k: int)
    requires
        0 <= k < 4,
    ensures
        ({
            let c = compact_sets(m);
            let (public, internal) = m.defaults;
            &&& c.registers.len() == 8 && c.pointers.len() == 8 && c.types.len() == 2
            &&& k < public.registers.len() ==> c.registers[k] == public.registers[k]
            &&& k >= public.registers.len() ==> c.registers[k].len() == 0
            &&& k < internal.registers.len() ==> c.registers[4 + k] == internal.registers[k]
            &&& k >= internal.registers.len() ==> c.registers[4 + k].len() == 0
            &&& k < public.pointers.len() ==> c.pointers[k] == public.pointers[k]
            &&& k >= public.pointers.len() ==> c.pointers[k].len() == 0
            &&& k < internal.pointers.len() ==> c.pointers[4 + k] == internal.pointers[k]
            &&& k >= internal.pointers.len() ==> c.pointers[4 + k].len() == 0
            &&& c.types[0] == public.types && c.types[1] == internal.types
        }),
{
}

} // verus!
