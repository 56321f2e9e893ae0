//! What shader objects hold in memory once they are created: their pointers,
//! their program registers, and the register blocks that are derived from them.
use vstd::prelude::*;
use crate::agc::effects::{
    apart, kept, lemma_kept_reads, lemma_put_keeps, lemma_put_u32_keeps_rest,
    lemma_put_u64_keeps_rest,
};
use crate::agc::fields::returned;
use crate::agc::shader::{
    bind_program, collect, create_prim_state, create_shader, entry_offsets, find_pair, first_pair,
    halves, interpolant, interpolants, law_program_registers_hold_code, law_relocated_pointer,
    mapped_data, position, program_entries, program_pair, relocate, relocate_all, sharps,
    then_copy_register, user_data_at, HEADER_POINTERS, SHADER_PROGRAM_REGISTER_PAIRS,
    USER_DATA_POINTERS,
};
use crate::context::{arg, Machine, ShaderSharp};
use crate::libsce_agc::AgcExport;
use crate::mem::{
    law_read_back, law_read_back_u32, law_read_back_u64, load, load_u16, load_u32, load_u64,
    load_u8, mapped, put, put_u32, put_u64, u32_or_zero, u64_or_zero, Mem,
};

verus! {

/// Where the pointer field at `field` leads: it holds a distance from itself, and
/// zero stays zero.
pub open spec fn leads_to(m: Mem, field: int) -> u64 {
    let distance = load_u64(m, field)->0;
    if distance == 0 {
        0
    } else {
        (field as u64).wrapping_add(distance)
    }
}

proof fn lemma_relocate_keeps(m: Mem, field: int, x: int, n: int)
    requires
        apart(field, 8, x, n),
    ensures
        kept(m, relocate(m, field).0, x, n),
{
    if let Some(rel) = load_u64(m, field) {
        lemma_put_u64_keeps_rest(m, field, (field as u64).wrapping_add(rel), x, n);
    }
}

proof fn lemma_relocate_all_keeps(m: Mem, base: u64, offsets: Seq<u64>, x: int, n: int)
    requires
        forall|i: int| 0 <= i < offsets.len() ==> apart(base + #[trigger] offsets[i], 8, x, n),
    ensures
        kept(m, relocate_all(m, base, offsets).0, x, n),
    decreases offsets.len(),
{
    if offsets.len() > 0 {
        let init = offsets.drop_last();
        assert forall|i: int| 0 <= i < init.len() implies apart(
            base + #[trigger] init[i],
            8,
            x,
            n,
        ) by {
            assert(init[i] == offsets[i]);
        }
        lemma_relocate_all_keeps(m, base, init, x, n);
        assert(offsets.last() == offsets[offsets.len() - 1]);
        lemma_relocate_keeps(relocate_all(m, base, init).0, base + offsets.last(), x, n);
    }
}

/// Pointer fields that do not overlap are each made to hold where they lead.
proof fn lemma_relocate_all_lands(m: Mem, base: u64, offsets: Seq<u64>, i: int)
    requires
        0 <= i < offsets.len(),
        forall|j: int, k: int|
            0 <= j < offsets.len() && 0 <= k < offsets.len() && j != k ==> apart(
                #[trigger] offsets[j] as int,
                8,
                #[trigger] offsets[k] as int,
                8,
            ),
        relocate_all(m, base, offsets).1,
    ensures
        load_u64(m, base + offsets[i]) is Some,
        load_u64(relocate_all(m, base, offsets).0, base + offsets[i]) == Some(
            leads_to(m, base + offsets[i]),
        ),
    decreases offsets.len(),
{
    let init = offsets.drop_last();
    let before = relocate_all(m, base, init).0;
    let field = base + offsets[i];
    let last = base + offsets.last();
    if i == offsets.len() - 1 {
        assert forall|j: int| 0 <= j < init.len() implies apart(
            base + #[trigger] init[j],
            8,
            field,
            8,
        ) by {
            assert(init[j] == offsets[j]);
        }
        lemma_relocate_all_keeps(m, base, init, field, 8);
        lemma_kept_reads(m, before, field, 8, field, 8);
        law_relocated_pointer(before, field);
    } else {
        assert forall|j: int, k: int|
            0 <= j < init.len() && 0 <= k < init.len() && j != k implies apart(
            #[trigger] init[j] as int,
            8,
            #[trigger] init[k] as int,
            8,
        ) by {
            assert(init[j] == offsets[j] && init[k] == offsets[k]);
        }
        assert(init[i] == offsets[i]);
        lemma_relocate_all_lands(m, base, init, i);
        assert(apart(offsets[i] as int, 8, offsets[offsets.len() - 1] as int, 8));
        lemma_relocate_keeps(before, last, field, 8);
        lemma_kept_reads(before, relocate(before, last).0, field, 8, field, 8);
    }
}

/// The pair of program registers of each stage: low address, then high.
pub open spec fn program_registers(kind: u8) -> (u32, u32) {
    if kind == 0 {
        (0x20C, 0x20D)
    } else if kind == 1 {
        (0x008, 0x009)
    } else if kind == 3 {
        (0x048, 0x049)
    } else if kind == 4 {
        (0x08A, 0x08B)
    } else if kind == 5 {
        (0x108, 0x109)
    } else if kind == 7 {
        (0x148, 0x149)
    } else {
        (0x0C8, 0x0C9)
    }
}

/// Entry `i` of the register table at `table` is the first one for register `r`.
pub open spec fn first_entry(m: Mem, table: u64, i: int, r: u32) -> bool {
    &&& load_u32(m, table + 8 * i) == Some(r)
    &&& forall|k: int| 0 <= k < i ==> #[trigger] load_u32(m, table + 8 * k) != Some(r)
}

proof fn lemma_collected(f: spec_fn(int) -> Option<u32>, n: nat)
    requires
        collect(f, n) is Some,
    ensures
        collect(f, n)->0.len() == n,
        forall|i: int| 0 <= i < n ==> #[trigger] f(i) == Some(collect(f, n)->0[i]),
    decreases n,
{
    if n > 0 {
        lemma_collected(f, (n - 1) as nat);
    }
}

proof fn lemma_position(s: Seq<u32>, v: u32, i: int)
    requires
        0 <= i < s.len(),
        s[i] == v,
        forall|k: int| 0 <= k < i ==> #[trigger] s[k] != v,
    ensures
        position(s, v) == Some(i),
    decreases s.len(),
{
    let init = s.drop_last();
    if i < s.len() - 1 {
        assert forall|k: int| 0 <= k < i implies #[trigger] init[k] != v by {
            assert(s[k] != v);
        }
        lemma_position(init, v, i);
    } else {
        lemma_no_position(init, v);
    }
}

proof fn lemma_no_position(s: Seq<u32>, v: u32)
    requires
        forall|k: int| 0 <= k < s.len() ==> #[trigger] s[k] != v,
    ensures
        position(s, v) is None,
    decreases s.len(),
{
    if s.len() > 0 {
        let init = s.drop_last();
        assert forall|k: int| 0 <= k < init.len() implies #[trigger] init[k] != v by {
            assert(s[k] != v);
        }
        lemma_no_position(init, v);
        assert(s[s.len() - 1] != v);
    }
}

/// The entries of a register table that were found are where they are.
proof fn lemma_entries(m: Mem, table: u64, n: nat, i: int, r: u32)
    requires
        entry_offsets(m, table, n) is Some,
        0 <= i < n,
        first_entry(m, table, i, r),
    ensures
        position(entry_offsets(m, table, n)->0, r) == Some(i),
{
    let f = |k: int| load_u32(m, table + 8 * k);
    let s = entry_offsets(m, table, n)->0;
    assert(entry_offsets(m, table, n) == collect(f, n));
    lemma_collected(f, n);
    assert(f(i) == Some(s[i]));
    assert forall|k: int| 0 <= k < i implies #[trigger] s[k] != r by {
        assert(f(k) == Some(s[k]));
        assert(load_u32(m, table + 8 * k) != Some(r));
    }
    lemma_position(s, r, i);
}

/// What binding leaves in the two entries that the stage's registers have.
proof fn lemma_bound(m: Mem, header: u64, code: u64, i: int, j: int)
    requires
        bind_program(m, header, code).1,
        ({
            let table = load_u64(m, header + 0x20)->0;
            let kind = load_u8(m, header + 0x5A)->0;
            let n = load_u8(m, header + 0x5C)->0;
            &&& 0 <= i < n
            &&& 0 <= j < n
            &&& kind <= 7
            &&& first_entry(m, table, i, program_registers(kind).0)
            &&& first_entry(m, table, j, program_registers(kind).1)
        }),
    ensures
        ({
            let table = load_u64(m, header + 0x20)->0;
            let n = load_u8(m, header + 0x5C)->0;
            let after = bind_program(m, header, code).0;
            &&& load_u64(m, header + 0x20) is Some
            &&& load_u32(after, table + 8 * i + 4) == Some((code >> 8) as u32)
            &&& load_u32(after, table + 8 * j + 4) == Some(((code >> 40) as u32) & 0xFF)
            &&& forall|x: int, k: int| #![trigger kept(m, after, x, k)]
                apart(table as int, 8 * n, x, k) ==> kept(m, after, x, k)
        }),
{
    let table = load_u64(m, header + 0x20)->0;
    let kind = load_u8(m, header + 0x5A)->0;
    let n = load_u8(m, header + 0x5C)->0;
    let (r, q) = program_registers(kind);
    let entries = entry_offsets(m, table, n as nat)->0;
    assert(entry_offsets(m, table, n as nat) is Some);
    lemma_entries(m, table, n as nat, i, r);
    lemma_entries(m, table, n as nat, j, q);
    assert(program_entries(entries, (r, q)) == Some((i, j)));
    assert(i != j);
    let low = (code >> 8) as u32;
    let high = ((code >> 40) as u32) & 0xFF;
    let m1 = put_u32(m, table + 8 * i + 4, low).0;
    let after = put_u32(m1, table + 8 * j + 4, high).0;
    law_read_back_u32(m, table + 8 * i + 4, low);
    law_read_back_u32(m1, table + 8 * j + 4, high);
    lemma_put_u32_keeps_rest(m1, table + 8 * j + 4, high, table + 8 * i + 4, 4);
    lemma_kept_reads(m1, after, table + 8 * i + 4, 4, table + 8 * i + 4, 4);
    assert forall|x: int, k: int| #![trigger kept(m, after, x, k)]
        apart(table as int, 8 * n, x, k) implies kept(m, after, x, k) by {
        lemma_put_u32_keeps_rest(m, table + 8 * i + 4, low, x, k);
        lemma_put_u32_keeps_rest(m1, table + 8 * j + 4, high, x, k);
        assert(kept(m, m1, x, k));
        assert(kept(m1, after, x, k));
    }
}

/// The parts of a shader object do not overlap: the header, the register table
/// and the user data that its pointers lead to, and the place where the object's
/// address is to be stored.
pub open spec fn well_laid_out(m: Mem, destination: u64, header: u64) -> bool {
    let table = leads_to(m, header + 0x20);
    let n = load_u8(m, header + 0x5C)->0;
    let user = leads_to(m, header + 0x08);
    &&& apart(table as int, 8 * n, header as int, 0x60)
    &&& apart(destination as int, 8, header as int, 0x60)
    &&& apart(destination as int, 8, table as int, 8 * n)
    &&& user != 0 ==> {
        &&& apart(user as int, 0x28, header as int, 0x60)
        &&& apart(user as int, 0x28, table as int, 8 * n)
        &&& apart(user as int, 0x28, destination as int, 8)
    }
}

/// How a shader that is created gets there: its pointers are relocated, its
/// program is bound, and its address is stored.
proof fn lemma_created(m: Machine, a: Seq<u64>)
    requires
        create_shader(m, a).1 == 0,
    ensures
        ({
            let header = arg(a, 1);
            let code = arg(a, 2);
            let r1 = relocate_all(m.mem, header, HEADER_POINTERS@);
            let r2 = put_u64(r1.0, header + 0x10, code);
            let user = load_u64(r2.0, header + 0x08)->0;
            let r = relocated(m.mem, header, code);
            let bound = bind_program(r, header, code);
            &&& r1.1
            &&& r2.1
            &&& user != 0 ==> relocate_all(r2.0, user, USER_DATA_POINTERS@).1
            &&& bound.1
            &&& put_u64(bound.0, arg(a, 0) as int, header).1
            &&& create_shader(m, a).0.mem == put_u64(bound.0, arg(a, 0) as int, header).0
        }),
{
}

/// The header once its pointers are relocated and its code address is stored.
proof fn lemma_header_relocated(m: Mem, header: u64, code: u64)
    requires
        relocate_all(m, header, HEADER_POINTERS@).1,
        put_u64(relocate_all(m, header, HEADER_POINTERS@).0, header + 0x10, code).1,
    ensures
        ({
            let r = put_u64(relocate_all(m, header, HEADER_POINTERS@).0, header + 0x10, code).0;
            &&& header_pointers_lead(m, r, header)
            &&& load_u64(r, header + 0x10) == Some(code)
            &&& forall|x: int, k: int| #![trigger kept(m, r, x, k)]
                x >= header + 0x40 || x + k <= header + 8 ==> kept(m, r, x, k)
        }),
{
    let offsets = HEADER_POINTERS@;
    let r1 = relocate_all(m, header, offsets).0;
    let r = put_u64(r1, header + 0x10, code).0;
    assert(offsets.len() == 6);
    assert(offsets[0] == 0x18 && offsets[1] == 0x20 && offsets[2] == 0x08 && offsets[3] == 0x28
        && offsets[4] == 0x30 && offsets[5] == 0x38);
    law_read_back_u64(r1, header + 0x10, code);
    assert forall|i: int| 0 <= i < 6 implies load_u64(r, header + #[trigger] offsets[i]) == Some(
        leads_to(m, header + offsets[i]),
    ) by {
        let field = header + offsets[i];
        lemma_relocate_all_lands(m, header, offsets, i);
        lemma_put_u64_keeps_rest(r1, header + 0x10, code, field, 8);
        lemma_kept_reads(r1, r, field, 8, field, 8);
    }
    assert(load_u64(r, header + offsets[0]) == Some(leads_to(m, header + 0x18)));
    assert(load_u64(r, header + offsets[1]) == Some(leads_to(m, header + 0x20)));
    assert(load_u64(r, header + offsets[2]) == Some(leads_to(m, header + 0x08)));
    assert(load_u64(r, header + offsets[3]) == Some(leads_to(m, header + 0x28)));
    assert(load_u64(r, header + offsets[4]) == Some(leads_to(m, header + 0x30)));
    assert(load_u64(r, header + offsets[5]) == Some(leads_to(m, header + 0x38)));
    assert forall|x: int, k: int| #![trigger kept(m, r, x, k)]
        x >= header + 0x40 || x + k <= header + 8 implies kept(m, r, x, k) by {
        lemma_relocate_all_keeps(m, header, offsets, x, k);
        lemma_put_u64_keeps_rest(r1, header + 0x10, code, x, k);
        assert(kept(m, r1, x, k) && kept(r1, r, x, k));
    }
}

/// User data once its pointers are relocated.
proof fn lemma_user_relocated(m: Mem, user: u64)
    requires
        relocate_all(m, user, USER_DATA_POINTERS@).1,
    ensures
        ({
            let r = relocate_all(m, user, USER_DATA_POINTERS@).0;
            &&& user_pointers_lead(m, r, user)
            &&& forall|x: int, k: int| #![trigger kept(m, r, x, k)]
                apart(user as int, 0x28, x, k) ==> kept(m, r, x, k)
        }),
{
    let fields = USER_DATA_POINTERS@;
    let r = relocate_all(m, user, fields).0;
    assert(fields.len() == 5);
    assert(fields[0] == 0 && fields[1] == 8 && fields[2] == 0x10 && fields[3] == 0x18 && fields[4]
        == 0x20);
    assert forall|x: int, k: int| #![trigger kept(m, r, x, k)]
        apart(user as int, 0x28, x, k) implies kept(m, r, x, k) by {
        lemma_relocate_all_keeps(m, user, fields, x, k);
    }
    lemma_relocate_all_lands(m, user, fields, 0);
    lemma_relocate_all_lands(m, user, fields, 1);
    lemma_relocate_all_lands(m, user, fields, 2);
    lemma_relocate_all_lands(m, user, fields, 3);
    lemma_relocate_all_lands(m, user, fields, 4);
}

/// The memory of a shader before its program is bound: the pointers hold where
/// they lead, the header holds the code address, and what is apart from them all
/// is as it was.
proof fn lemma_relocated(m: Machine, a: Seq<u64>)
    requires
        create_shader(m, a).1 == 0,
        well_laid_out(m.mem, arg(a, 0), arg(a, 1)),
    ensures
        ({
            let header = arg(a, 1);
            let r = relocated(m.mem, header, arg(a, 2));
            let user = leads_to(m.mem, header + 0x08);
            &&& header_pointers_lead(m.mem, r, header)
            &&& load_u64(r, header + 0x10) == Some(arg(a, 2))
            &&& user != 0 ==> user_pointers_lead(m.mem, r, user)
            &&& kept(m.mem, r, header + 0x40, 0x20)
            &&& kept(m.mem, r, header as int, 8)
            &&& forall|x: int, k: int| #![trigger kept(m.mem, r, x, k)]
                apart(header as int, 0x60, x, k) && (user != 0 ==> apart(user as int, 0x28, x, k))
                    ==> kept(m.mem, r, x, k)
        }),
{
    let header = arg(a, 1);
    let code = arg(a, 2);
    let r2 = put_u64(relocate_all(m.mem, header, HEADER_POINTERS@).0, header + 0x10, code).0;
    let user = leads_to(m.mem, header + 0x08);
    let r = relocated(m.mem, header, code);
    lemma_created(m, a);
    lemma_header_relocated(m.mem, header, code);
    assert(load_u64(r2, header + 0x08)->0 == user);
    assert(kept(m.mem, r2, header + 0x40, 0x20));
    assert(kept(m.mem, r2, header as int, 8));
    if user != 0 {
        lemma_user_relocated(r2, user);
        assert(r == relocate_all(r2, user, USER_DATA_POINTERS@).0);
        assert(kept(r2, r, header as int, 0x60));
        assert(kept(m.mem, r2, user as int, 0x28));
        lemma_same_user_pointers(m.mem, r2, user);
        lemma_kept_reads(r2, r, header as int, 0x60, header + 0x08, 8);
        lemma_kept_reads(r2, r, header as int, 0x60, header + 0x10, 8);
        lemma_kept_reads(r2, r, header as int, 0x60, header + 0x18, 8);
        lemma_kept_reads(r2, r, header as int, 0x60, header + 0x20, 8);
        lemma_kept_reads(r2, r, header as int, 0x60, header + 0x28, 8);
        lemma_kept_reads(r2, r, header as int, 0x60, header + 0x30, 8);
        lemma_kept_reads(r2, r, header as int, 0x60, header + 0x38, 8);
    } else {
        assert(r == r2);
    }
    assert forall|x: int, k: int| #![trigger kept(m.mem, r, x, k)]
        apart(header as int, 0x60, x, k) && (user != 0 ==> apart(user as int, 0x28, x, k)) implies
        kept(m.mem, r, x, k) by {
        assert(kept(m.mem, r2, x, k));
        assert(user != 0 ==> kept(r2, r, x, k));
    }
}

proof fn lemma_same_user_pointers(m: Mem, r: Mem, user: u64)
    requires
        kept(m, r, user as int, 0x28),
    ensures
        leads_to(r, user as int) == leads_to(m, user as int),
        leads_to(r, user + 0x08) == leads_to(m, user + 0x08),
        leads_to(r, user + 0x10) == leads_to(m, user + 0x10),
        leads_to(r, user + 0x18) == leads_to(m, user + 0x18),
        leads_to(r, user + 0x20) == leads_to(m, user + 0x20),
{
    lemma_kept_reads(m, r, user as int, 0x28, user as int, 8);
    lemma_kept_reads(m, r, user as int, 0x28, user + 0x08, 8);
    lemma_kept_reads(m, r, user as int, 0x28, user + 0x10, 8);
    lemma_kept_reads(m, r, user as int, 0x28, user + 0x18, 8);
    lemma_kept_reads(m, r, user as int, 0x28, user + 0x20, 8);
}

/// The memory of a shader once its pointers are absolute and its code is known.
spec fn relocated(m: Mem, header: u64, code: u64) -> Mem {
    let r1 = relocate_all(m, header, HEADER_POINTERS@).0;
    let r2 = put_u64(r1, header + 0x10, code).0;
    let user = load_u64(r2, header + 0x08)->0;
    if user == 0 {
        r2
    } else {
        relocate_all(r2, user, USER_DATA_POINTERS@).0
    }
}

/// In `after`, every pointer of the header holds where it led in `before`.
pub open spec fn header_pointers_lead(before: Mem, after: Mem, header: u64) -> bool {
    &&& load_u64(after, header + 0x08) == Some(leads_to(before, header + 0x08))
    &&& load_u64(after, header + 0x18) == Some(leads_to(before, header + 0x18))
    &&& load_u64(after, header + 0x20) == Some(leads_to(before, header + 0x20))
    &&& load_u64(after, header + 0x28) == Some(leads_to(before, header + 0x28))
    &&& load_u64(after, header + 0x30) == Some(leads_to(before, header + 0x30))
    &&& load_u64(after, header + 0x38) == Some(leads_to(before, header + 0x38))
}

/// In `after`, every pointer of the user data holds where it led in `before`.
pub open spec fn user_pointers_lead(before: Mem, after: Mem, user: u64) -> bool {
    &&& load_u64(after, user as int) == Some(leads_to(before, user as int))
    &&& load_u64(after, user + 0x08) == Some(leads_to(before, user + 0x08))
    &&& load_u64(after, user + 0x10) == Some(leads_to(before, user + 0x10))
    &&& load_u64(after, user + 0x18) == Some(leads_to(before, user + 0x18))
    &&& load_u64(after, user + 0x20) == Some(leads_to(before, user + 0x20))
}

/// After a shader is created, the two program registers of its stage hold its code
/// address: read back from the first entries of its register table that are for
/// them, they make up bits 8 to 47 of the code address. (The parts of the object
/// are apart from each other.)
pub proof fn law_created_shader_points_at_its_code(m: Machine, a: Seq<u64>, i: int, j: int)
    requires
        returned(AgcExport::CreateShader, m, a).1 == 0,
        well_laid_out(m.mem, arg(a, 0), arg(a, 1)),
        ({
            let table = leads_to(m.mem, arg(a, 1) + 0x20);
            let kind = load_u8(m.mem, arg(a, 1) + 0x5A)->0;
            let n = load_u8(m.mem, arg(a, 1) + 0x5C)->0;
            &&& 0 <= i < n
            &&& 0 <= j < n
            &&& kind <= 7
            &&& first_entry(m.mem, table, i, program_registers(kind).0)
            &&& first_entry(m.mem, table, j, program_registers(kind).1)
        }),
    ensures
        ({
            let table = leads_to(m.mem, arg(a, 1) + 0x20);
            let after = returned(AgcExport::CreateShader, m, a).0.mem;
            let low = load_u32(after, table + 8 * i + 4);
            let high = load_u32(after, table + 8 * j + 4);
            &&& low is Some && high is Some
            &&& (((low->0) as u64) << 8) | (((high->0) as u64) << 40) == arg(a, 2)
                & 0x0000_FFFF_FFFF_FF00
            &&& load_u32(after, table + 8 * i) == Some(
                program_registers(load_u8(m.mem, arg(a, 1) + 0x5A)->0).0,
            )
            &&& load_u32(after, table + 8 * j) == Some(
                program_registers(load_u8(m.mem, arg(a, 1) + 0x5A)->0).1,
            )
        }),
{
    let destination = arg(a, 0);
    let header = arg(a, 1);
    let code = arg(a, 2);
    let table = leads_to(m.mem, header + 0x20);
    let kind = load_u8(m.mem, header + 0x5A)->0;
    let n = load_u8(m.mem, header + 0x5C)->0;
    let r = relocated(m.mem, header, code);
    let bound = bind_program(r, header, code).0;
    let after = create_shader(m, a).0.mem;
    lemma_created(m, a);
    lemma_relocated(m, a);
    lemma_kept_reads(m.mem, r, header + 0x40, 0x20, header + 0x5A, 1);
    lemma_kept_reads(m.mem, r, header + 0x40, 0x20, header + 0x5C, 1);
    assert(kept(m.mem, r, table as int, 8 * n));
    assert forall|k: int| 0 <= k < n implies #[trigger] load_u32(r, table + 8 * k) == load_u32(
        m.mem,
        table + 8 * k,
    ) by {
        lemma_kept_reads(m.mem, r, table as int, 8 * n, table + 8 * k, 4);
    }
    assert(first_entry(r, table, i, program_registers(kind).0));
    assert(first_entry(r, table, j, program_registers(kind).1));
    lemma_bound(r, header, code, i, j);
    lemma_put_u64_keeps_rest(bound, destination as int, header, table as int, 8 * n);
    lemma_kept_reads(bound, after, table as int, 8 * n, table + 8 * i + 4, 4);
    lemma_kept_reads(bound, after, table as int, 8 * n, table + 8 * j + 4, 4);
    law_program_registers_hold_code(code);
    lemma_bound_keeps_entries(r, header, code, i, j, i);
    lemma_bound_keeps_entries(r, header, code, i, j, j);
    lemma_kept_reads(bound, after, table as int, 8 * n, table + 8 * i, 4);
    lemma_kept_reads(bound, after, table as int, 8 * n, table + 8 * j, 4);
}

/// Binding leaves the register numbers of the table alone.
proof fn lemma_bound_keeps_entries(m: Mem, header: u64, code: u64, i: int, j: int, k: int)
    requires
        bind_program(m, header, code).1,
        ({
            let table = load_u64(m, header + 0x20)->0;
            let kind = load_u8(m, header + 0x5A)->0;
            let n = load_u8(m, header + 0x5C)->0;
            &&& 0 <= i < n
            &&& 0 <= j < n
            &&& 0 <= k < n
            &&& kind <= 7
            &&& first_entry(m, table, i, program_registers(kind).0)
            &&& first_entry(m, table, j, program_registers(kind).1)
        }),
    ensures
        ({
            let table = load_u64(m, header + 0x20)->0;
            load_u32(bind_program(m, header, code).0, table + 8 * k) == load_u32(m, table + 8 * k)
        }),
{
    let table = load_u64(m, header + 0x20)->0;
    let kind = load_u8(m, header + 0x5A)->0;
    let n = load_u8(m, header + 0x5C)->0;
    let (r, q) = program_registers(kind);
    assert(entry_offsets(m, table, n as nat) is Some);
    lemma_entries(m, table, n as nat, i, r);
    lemma_entries(m, table, n as nat, j, q);
    let low = (code >> 8) as u32;
    let high = ((code >> 40) as u32) & 0xFF;
    let m1 = put_u32(m, table + 8 * i + 4, low).0;
    let after = put_u32(m1, table + 8 * j + 4, high).0;
    let x = table + 8 * k;
    lemma_put_u32_keeps_rest(m, table + 8 * i + 4, low, x, 4);
    lemma_put_u32_keeps_rest(m1, table + 8 * j + 4, high, x, 4);
    lemma_kept_reads(m, m1, x, 4, x, 4);
    lemma_kept_reads(m1, after, x, 4, x, 4);
}

proof fn lemma_position_below(s: Seq<u32>, v: u32)
    ensures
        position(s, v) is Some ==> 0 <= position(s, v)->0 < s.len(),
    decreases s.len(),
{
    if s.len() > 0 {
        lemma_position_below(s.drop_last(), v);
    }
}

proof fn lemma_pair_below(s: Seq<u32>, pairs: Seq<(u32, u32)>)
    ensures
        first_pair(s, pairs) is Some ==> 0 <= (first_pair(s, pairs)->0).0 < s.len() && 0 <= (
        first_pair(s, pairs)->0).1 < s.len(),
    decreases pairs.len(),
{
    if pairs.len() > 0 {
        lemma_pair_below(s, pairs.drop_last());
        lemma_position_below(s, pairs.last().0);
        lemma_position_below(s, pairs.last().1);
    }
}

/// Binding changes nothing outside the register table.
proof fn lemma_bind_keeps(m: Mem, header: u64, code: u64, x: int, k: int)
    requires
        apart(
            load_u64(m, header + 0x20)->0 as int,
            8 * load_u8(m, header + 0x5C)->0,
            x,
            k,
        ),
    ensures
        kept(m, bind_program(m, header, code).0, x, k),
{
    if load_u64(m, header + 0x20) is Some && load_u8(m, header + 0x5A) is Some && load_u8(
        m,
        header + 0x5C,
    ) is Some {
        let table = load_u64(m, header + 0x20)->0;
        let kind = load_u8(m, header + 0x5A)->0;
        let n = load_u8(m, header + 0x5C)->0;
        if let (Some(expected), Some(entries)) = (
            program_pair(kind),
            entry_offsets(m, table, n as nat),
        ) {
            lemma_collected(|i: int| load_u32(m, table + 8 * i), n as nat);
            assert(entries.len() == n);
            lemma_position_below(entries, expected.0);
            lemma_position_below(entries, expected.1);
            lemma_pair_below(entries, SHADER_PROGRAM_REGISTER_PAIRS@);
            if let Some((i, j)) = program_entries(entries, expected) {
                let low = (code >> 8) as u32;
                let high = ((code >> 40) as u32) & 0xFF;
                let m1 = put_u32(m, table + 8 * i + 4, low).0;
                lemma_put_u32_keeps_rest(m, table + 8 * i + 4, low, x, k);
                lemma_put_u32_keeps_rest(m1, table + 8 * j + 4, high, x, k);
            }
        }
    }
}

/// After a shader is created its header's pointers are absolute, and so are those of
/// its user data; the header holds the whole code address, the caller's place holds
/// the header's, and what is apart from all of these and from the register table is
/// as it was.
pub proof fn law_created_shader_is_laid_out(m: Machine, a: Seq<u64>)
    requires
        returned(AgcExport::CreateShader, m, a).1 == 0,
        well_laid_out(m.mem, arg(a, 0), arg(a, 1)),
    ensures
        ({
            let after = returned(AgcExport::CreateShader, m, a).0.mem;
            let destination = arg(a, 0);
            let header = arg(a, 1);
            let table = leads_to(m.mem, header + 0x20);
            let n = load_u8(m.mem, header + 0x5C)->0;
            let user = leads_to(m.mem, header + 0x08);
            &&& header_pointers_lead(m.mem, after, header)
            &&& load_u64(after, header + 0x10) == Some(arg(a, 2))
            &&& user != 0 ==> user_pointers_lead(m.mem, after, user)
            &&& load_u64(after, destination as int) == Some(header)
            &&& forall|x: int, k: int| #![trigger kept(m.mem, after, x, k)]
                apart(header as int, 0x60, x, k) && (user != 0 ==> apart(user as int, 0x28, x, k))
                    && apart(table as int, 8 * n, x, k) && apart(destination as int, 8, x, k)
                    ==> kept(m.mem, after, x, k)
        }),
{
    let destination = arg(a, 0);
    let header = arg(a, 1);
    let code = arg(a, 2);
    let table = leads_to(m.mem, header + 0x20);
    let n = load_u8(m.mem, header + 0x5C)->0;
    let user = leads_to(m.mem, header + 0x08);
    let r = relocated(m.mem, header, code);
    let bound = bind_program(r, header, code).0;
    let after = create_shader(m, a).0.mem;
    lemma_created(m, a);
    lemma_relocated(m, a);
    lemma_kept_reads(m.mem, r, header + 0x40, 0x20, header + 0x5C, 1);
    lemma_bind_keeps(r, header, code, header as int, 0x60);
    lemma_put_u64_keeps_rest(bound, destination as int, header, header as int, 0x60);
    assert(kept(r, after, header as int, 0x60));
    lemma_kept_reads(r, after, header as int, 0x60, header + 0x08, 8);
    lemma_kept_reads(r, after, header as int, 0x60, header + 0x10, 8);
    lemma_kept_reads(r, after, header as int, 0x60, header + 0x18, 8);
    lemma_kept_reads(r, after, header as int, 0x60, header + 0x20, 8);
    lemma_kept_reads(r, after, header as int, 0x60, header + 0x28, 8);
    lemma_kept_reads(r, after, header as int, 0x60, header + 0x30, 8);
    lemma_kept_reads(r, after, header as int, 0x60, header + 0x38, 8);
    law_read_back_u64(bound, destination as int, header);
    if user != 0 {
        lemma_bind_keeps(r, header, code, user as int, 0x28);
        lemma_put_u64_keeps_rest(bound, destination as int, header, user as int, 0x28);
        assert(kept(r, after, user as int, 0x28));
        lemma_kept_reads(r, after, user as int, 0x28, user as int, 8);
        lemma_kept_reads(r, after, user as int, 0x28, user + 0x08, 8);
        lemma_kept_reads(r, after, user as int, 0x28, user + 0x10, 8);
        lemma_kept_reads(r, after, user as int, 0x28, user + 0x18, 8);
        lemma_kept_reads(r, after, user as int, 0x28, user + 0x20, 8);
    }
    assert forall|x: int, k: int| #![trigger kept(m.mem, after, x, k)]
        apart(header as int, 0x60, x, k) && (user != 0 ==> apart(user as int, 0x28, x, k)) && apart(
            table as int,
            8 * n,
            x,
            k,
        ) && apart(destination as int, 8, x, k) implies kept(m.mem, after, x, k) by {
        assert(kept(m.mem, r, x, k));
        lemma_bind_keeps(r, header, code, x, k);
        lemma_put_u64_keeps_rest(bound, destination as int, header, x, k);
        assert(kept(r, bound, x, k) && kept(bound, after, x, k));
    }
}

/// What is no shader is refused, and nothing changes: a null header or code address,
/// and a header without the mark (0x34333231) or the version (0x18); a header that
/// cannot be read is a fault.
pub proof fn law_no_shader_is_refused(m: Machine, a: Seq<u64>)
    ensures
        ({
            let header = arg(a, 1);
            let null = header == 0 || arg(a, 2) == 0;
            let mark = load_u32(m.mem, header as int);
            let version = load_u32(m.mem, header + 4);
            &&& null ==> returned(AgcExport::CreateShader, m, a) == (m, 0x8002_0016u64)
            &&& !null && (mark is None || version is None) ==> returned(AgcExport::CreateShader, m, a) == (
                m,
                0x8002_000Eu64,
            )
            &&& !null && mark is Some && version is Some && (mark != Some(0x3433_3231u32) || version
                != Some(0x18u32)) ==> returned(AgcExport::CreateShader, m, a) == (m, 0x8002_0016u64)
        }),
{
}

/// What is handed to the GPU of a shader: the semantics at 0x30, as many as 0x50
/// says, and the user data at 8. Of these, the direct resources are the halves that
/// its first pointer leads to, as many as 0x2C says; each of the four lists of
/// resources the halves that the pointers at 8, 0x10, 0x18 and 0x20 lead to, as many
/// as 0x2E, 0x30, 0x32 and 0x34 say; and the sizes stand at 0x28 and 0x2A.
pub proof fn law_mapped_data(m: Mem, header: u64)
    requires
        mapped_data(m, header) is Some,
    ensures
        ({
            let d = mapped_data(m, header)->0;
            let semantics = u64_or_zero(m, header + 0x30);
            let n = u32_or_zero(m, header + 0x50);
            let user = u64_or_zero(m, header + 0x08);
            &&& d.semantics.len() == n && n <= 16384
            &&& forall|i: int|
                0 <= i < n ==> (#[trigger] d.semantics[i]).raw == u32_or_zero(m, semantics + 4 * i)
            &&& user == 0 ==> d.user_data is None
            &&& user != 0 ==> {
                &&& d.user_data is Some
                &&& Some(d.user_data->0.eud_size_dw) == load_u16(m, user + 0x28)
                &&& Some(d.user_data->0.srt_size_dw) == load_u16(m, user + 0x2A)
                &&& halves_are(m, u64_or_zero(m, user as int), load_u16(m, user + 0x2C)->0, d.user_data->0.direct)
                &&& d.user_data->0.sharps.len() == 4
                &&& sharps_are(m, u64_or_zero(m, user + 0x08), load_u16(m, user + 0x2E)->0, d.user_data->0.sharps[0])
                &&& sharps_are(m, u64_or_zero(m, user + 0x10), load_u16(m, user + 0x30)->0, d.user_data->0.sharps[1])
                &&& sharps_are(m, u64_or_zero(m, user + 0x18), load_u16(m, user + 0x32)->0, d.user_data->0.sharps[2])
                &&& sharps_are(m, u64_or_zero(m, user + 0x20), load_u16(m, user + 0x34)->0, d.user_data->0.sharps[3])
            }
        }),
{
    let user = u64_or_zero(m, header + 0x08);
    if user != 0 {
        let n = load_u16(m, user + 0x2C)->0;
        lemma_halves_read(m, u64_or_zero(m, user as int), n as nat);
        lemma_sharps_read(m, u64_or_zero(m, user + 0x08), load_u16(m, user + 0x2E)->0 as nat);
        lemma_sharps_read(m, u64_or_zero(m, user + 0x10), load_u16(m, user + 0x30)->0 as nat);
        lemma_sharps_read(m, u64_or_zero(m, user + 0x18), load_u16(m, user + 0x32)->0 as nat);
        lemma_sharps_read(m, u64_or_zero(m, user + 0x20), load_u16(m, user + 0x34)->0 as nat);
    }
}

/// `s` is the list of `n` halves at `a`.
pub open spec fn halves_are(m: Mem, a: u64, n: u16, s: Seq<u16>) -> bool {
    &&& s.len() == n
    &&& forall|i: int| 0 <= i < n ==> Some(#[trigger] s[i]) == load_u16(m, a + 2 * i)
}

/// `s` is the list of `n` resources, a half each, at `a`.
pub open spec fn sharps_are(m: Mem, a: u64, n: u16, s: Seq<ShaderSharp>) -> bool {
    &&& s.len() == n
    &&& forall|i: int| 0 <= i < n ==> Some((#[trigger] s[i]).raw) == load_u16(m, a + 2 * i)
}

proof fn lemma_gathered(f: spec_fn(int) -> Option<u16>, n: nat)
    requires
        collect(f, n) is Some,
    ensures
        collect(f, n)->0.len() == n,
        forall|i: int| 0 <= i < n ==> #[trigger] f(i) == Some(collect(f, n)->0[i]),
    decreases n,
{
    if n > 0 {
        lemma_gathered(f, (n - 1) as nat);
    }
}

proof fn lemma_halves_read(m: Mem, a: u64, n: nat)
    ensures
        halves(m, a, n) is Some ==> halves(m, a, n)->0.len() == n && forall|i: int|
            0 <= i < n ==> Some(#[trigger] halves(m, a, n)->0[i]) == load_u16(m, a + 2 * i),
{
    let f = |i: int| load_u16(m, a + 2 * i);
    if halves(m, a, n) is Some {
        assert(halves(m, a, n) == collect(f, n));
        lemma_gathered(f, n);
        assert forall|i: int| 0 <= i < n implies Some(#[trigger] halves(m, a, n)->0[i])
            == load_u16(m, a + 2 * i) by {
            assert(f(i) == Some(collect(f, n)->0[i]));
        }
    }
}

proof fn lemma_sharps_read(m: Mem, a: u64, n: nat)
    ensures
        sharps(m, a, n) is Some ==> sharps(m, a, n)->0.len() == n && forall|i: int|
            0 <= i < n ==> Some((#[trigger] sharps(m, a, n)->0[i]).raw) == load_u16(m, a + 2 * i),
{
    lemma_halves_read(m, a, n);
    if sharps(m, a, n) is Some {
        assert forall|i: int| 0 <= i < n implies Some((#[trigger] sharps(m, a, n)->0[i]).raw)
            == load_u16(m, a + 2 * i) by {
            assert(sharps(m, a, n)->0[i].raw == halves(m, a, n)->0[i]);
        }
    }
}

/// A register of eight bytes that was copied from where it was kept to a place apart.
proof fn lemma_register_copied(m: Mem, src: int, dst: int)
    ensures
        ({
            let r = then_copy_register((m, true), src, dst);
            &&& r.1 ==> load(m, src, 8) is Some && load(r.0, dst, 8) == load(m, src, 8)
            &&& forall|x: int, k: int| #![trigger kept(m, r.0, x, k)]
                apart(dst, 8, x, k) ==> kept(m, r.0, x, k)
        }),
{
    if let Some(b) = load(m, src, 8) {
        let r = put(m, dst, b).0;
        assert(b.len() == 8);
        if put(m, dst, b).1 {
            law_read_back(m, dst, b);
        }
        assert forall|x: int, k: int| #![trigger kept(m, r, x, k)]
            apart(dst, 8, x, k) implies kept(m, r, x, k) by {
            lemma_put_keeps(m, dst, b, x, k);
        }
    }
}

/// The primitive state of a geometry shader: the context block gets the stages (at 8
/// of the shader's specials, which 0x28 of its header leads to) and the output type
/// (at 0x20); the configuration block gets the geometry control (at 0), the user
/// registers (at 0x28), and the primitive type register (0x242) with the type that
/// was passed. (The blocks and the specials are apart.)
pub proof fn law_primitive_state(m: Machine, a: Seq<u64>)
    requires
        returned(AgcExport::CreatePrimState, m, a).1 == 0,
        ({
            let specials = load_u64(m.mem, arg(a, 3) + 0x28)->0;
            &&& apart(arg(a, 0) as int, 16, arg(a, 1) as int, 24)
            &&& apart(arg(a, 0) as int, 16, specials as int, 0x30)
            &&& apart(arg(a, 1) as int, 24, specials as int, 0x30)
        }),
    ensures
        ({
            let after = returned(AgcExport::CreatePrimState, m, a).0.mem;
            let (cx, uc) = (arg(a, 0) as int, arg(a, 1) as int);
            let specials = load_u64(m.mem, arg(a, 3) + 0x28)->0;
            &&& load(m.mem, specials + 0x08, 8) is Some && load(after, cx, 8) == load(
                m.mem,
                specials + 0x08,
                8,
            )
            &&& load(m.mem, specials + 0x20, 8) is Some && load(after, cx + 8, 8) == load(
                m.mem,
                specials + 0x20,
                8,
            )
            &&& load(m.mem, specials as int, 8) is Some && load(after, uc, 8) == load(
                m.mem,
                specials as int,
                8,
            )
            &&& load(m.mem, specials + 0x28, 8) is Some && load(after, uc + 8, 8) == load(
                m.mem,
                specials + 0x28,
                8,
            )
            &&& load_u32(after, uc + 16) == Some(0x242u32)
            &&& load_u32(after, uc + 20) == Some(arg(a, 4) as u32)
        }),
{
    let (cx, uc) = (arg(a, 0) as int, arg(a, 1) as int);
    let specials = load_u64(m.mem, arg(a, 3) + 0x28)->0;
    let p1 = then_copy_register((m.mem, true), specials + 0x08, cx);
    let p2 = then_copy_register(p1, specials + 0x20, cx + 8);
    let p3 = then_copy_register(p2, specials as int, uc);
    let p4 = then_copy_register(p3, specials + 0x28, uc + 8);
    let p5 = put_u32(p4.0, uc + 16, 0x242);
    let p6 = put_u32(p5.0, uc + 20, arg(a, 4) as u32);
    let after = create_prim_state(m, a).0.mem;
    assert(after == p6.0 && p5.1 && p6.1);
    lemma_register_copied(m.mem, specials + 0x08, cx);
    lemma_register_copied(p1.0, specials + 0x20, cx + 8);
    lemma_register_copied(p2.0, specials as int, uc);
    lemma_register_copied(p3.0, specials + 0x28, uc + 8);
    law_read_back_u32(p4.0, uc + 16, 0x242);
    law_read_back_u32(p5.0, uc + 20, arg(a, 4) as u32);
    assert(kept(m.mem, p1.0, specials as int, 0x30));
    assert(kept(p1.0, p2.0, specials as int, 0x30));
    assert(kept(p2.0, p3.0, specials as int, 0x30));
    lemma_kept_reads(m.mem, p1.0, specials as int, 0x30, specials + 0x20, 8);
    lemma_kept_reads(m.mem, p2.0, specials as int, 0x30, specials as int, 8);
    lemma_kept_reads(m.mem, p3.0, specials as int, 0x30, specials + 0x28, 8);
    assert(kept(p1.0, p2.0, cx, 8));
    assert(kept(p2.0, p3.0, cx, 16));
    assert(kept(p3.0, p4.0, cx, 16));
    assert(kept(p3.0, p4.0, uc, 8));
    lemma_put_u32_keeps_rest(p4.0, uc + 16, 0x242, cx, 16);
    lemma_put_u32_keeps_rest(p5.0, uc + 20, arg(a, 4) as u32, cx, 16);
    lemma_put_u32_keeps_rest(p4.0, uc + 16, 0x242, uc, 16);
    lemma_put_u32_keeps_rest(p5.0, uc + 20, arg(a, 4) as u32, uc, 20);
    assert(kept(p2.0, after, cx, 16));
    assert(kept(p1.0, after, cx, 8));
    assert(kept(p4.0, after, uc, 16));
    assert(kept(p3.0, after, uc, 8));
    lemma_kept_reads(p1.0, after, cx, 8, cx, 8);
    lemma_kept_reads(p2.0, after, cx, 16, cx + 8, 8);
    lemma_kept_reads(p3.0, after, uc, 8, uc, 8);
    lemma_kept_reads(p4.0, after, uc, 16, uc + 8, 8);
    lemma_kept_reads(p5.0, after, uc, 20, uc + 16, 4);
}

/// What asks for no primitive state is refused, and nothing changes.
pub proof fn law_no_primitive_state(m: Machine, a: Seq<u64>)
    ensures
        ({
            let null = arg(a, 0) == 0 || arg(a, 1) == 0 || arg(a, 2) != 0 || arg(a, 3) == 0;
            let specials = load_u64(m.mem, arg(a, 3) + 0x28);
            &&& null || specials == Some(0u64) ==> returned(AgcExport::CreatePrimState, m, a).0 == m
            &&& null ==> returned(AgcExport::CreatePrimState, m, a).1 == 0x8002_0016
            &&& !null && specials == Some(0u64) ==> returned(AgcExport::CreatePrimState, m, a).1 == 0x8002_0016
            &&& !null && specials is None ==> returned(AgcExport::CreatePrimState, m, a) == (m, 0x8002_000Eu64)
            &&& arg(a, 0) == 0 || arg(a, 1) == 0 ==> returned(AgcExport::CreateInterpolantMapping, m, a) == (
                m,
                0x8002_0016u64,
            )
        }),
{
}

/// The value that interpolant `i` is to have: nothing where the geometry shader has
/// no such output; otherwise its number, with bit 10 where the pixel shader's input
/// semantic has bit 22, that is, is flat.
pub open spec fn interpolant_value(m: Mem, outputs: u32, inputs: u64, i: int) -> u32 {
    let flat = inputs != 0 && (u32_or_zero(m, inputs + 4 * i) >> 22) & 1 != 0;
    if i >= outputs {
        0
    } else if flat {
        i as u32 | 0x400
    } else {
        i as u32
    }
}

proof fn lemma_interpolants(m: Mem, registers: u64, outputs: u32, inputs: u64, n: nat, i: int)
    requires
        interpolants(m, registers, outputs, inputs, n).1,
        n <= 32,
        inputs == 0 || apart(inputs as int, 4 * n as int, registers as int, 8 * n as int),
    ensures
        0 <= i < n ==> {
            let after = interpolants(m, registers, outputs, inputs, n).0;
            &&& load_u32(after, registers + 8 * i) == Some((0x191 + i) as u32)
            &&& load_u32(after, registers + 8 * i + 4) == Some(
                interpolant_value(m, outputs, inputs, i),
            )
        },
        forall|x: int, k: int|
            #![trigger kept(m, interpolants(m, registers, outputs, inputs, n).0, x, k)]
            apart(registers as int, 8 * n as int, x, k) ==> kept(
                m,
                interpolants(m, registers, outputs, inputs, n).0,
                x,
                k,
            ),
    decreases n,
{
    if n > 0 {
        let j = n - 1;
        let before = interpolants(m, registers, outputs, inputs, j as nat).0;
        lemma_interpolants(m, registers, outputs, inputs, j as nat, i);
        let value = interpolant(before, outputs, inputs, j);
        let m1 = put_u32(before, registers + 8 * j, (0x191 + j) as u32).0;
        let after = put_u32(m1, registers + 8 * j + 4, value).0;
        law_read_back_u32(before, registers + 8 * j, (0x191 + j) as u32);
        law_read_back_u32(m1, registers + 8 * j + 4, value);
        lemma_put_u32_keeps_rest(m1, registers + 8 * j + 4, value, registers as int, 8 * j + 4);
        lemma_kept_reads(m1, after, registers as int, 8 * j + 4, registers + 8 * j, 4);
        if inputs != 0 {
            assert(kept(m, before, inputs as int, 4 * n as int));
            lemma_kept_reads(m, before, inputs as int, 4 * n as int, inputs + 4 * j, 4);
        }
        if 0 <= i < j {
            lemma_put_u32_keeps_rest(
                before,
                registers + 8 * j,
                (0x191 + j) as u32,
                registers as int,
                8 * j,
            );
            assert(kept(before, after, registers as int, 8 * j));
            lemma_kept_reads(before, after, registers as int, 8 * j, registers + 8 * i, 4);
            lemma_kept_reads(before, after, registers as int, 8 * j, registers + 8 * i + 4, 4);
        }
        assert forall|x: int, k: int| #![trigger kept(m, after, x, k)]
            apart(registers as int, 8 * n as int, x, k) implies kept(m, after, x, k) by {
            assert(kept(m, before, x, k));
            lemma_put_u32_keeps_rest(before, registers + 8 * j, (0x191 + j) as u32, x, k);
            lemma_put_u32_keeps_rest(m1, registers + 8 * j + 4, value, x, k);
        }
    }
}

/// An interpolant mapping has 32 entries, for registers 0x191 on. Each holds the value
/// that the geometry shader's outputs (as many as 0x56 of its header says, if 0x38
/// leads to any) and the pixel shader's inputs (which 0x30 of its header leads to) ask
/// for. (The mapping is apart from the inputs.)
pub proof fn law_interpolant_mapping(m: Machine, a: Seq<u64>, i: int)
    requires
        returned(AgcExport::CreateInterpolantMapping, m, a).1 == 0,
        0 <= i < 32,
        ({
            let inputs = u64_or_zero(m.mem, arg(a, 2) + 0x30);
            arg(a, 2) == 0 || inputs == 0 || apart(inputs as int, 128, arg(a, 0) as int, 256)
        }),
    ensures
        ({
            let after = returned(AgcExport::CreateInterpolantMapping, m, a).0.mem;
            let outputs: u32 = if u64_or_zero(m.mem, arg(a, 1) + 0x38) == 0 {
                0
            } else {
                u32_or_zero(m.mem, arg(a, 1) + 0x56)
            };
            let inputs: u64 = if arg(a, 2) == 0 {
                0
            } else {
                u64_or_zero(m.mem, arg(a, 2) + 0x30)
            };
            &&& load_u32(after, arg(a, 0) + 8 * i) == Some((0x191 + i) as u32)
            &&& load_u32(after, arg(a, 0) + 8 * i + 4) == Some(
                interpolant_value(m.mem, outputs, inputs, i),
            )
        }),
{
    let outputs: u32 = if u64_or_zero(m.mem, arg(a, 1) + 0x38) == 0 {
        0
    } else {
        u32_or_zero(m.mem, arg(a, 1) + 0x56)
    };
    let inputs: u64 = if arg(a, 2) == 0 {
        0
    } else {
        u64_or_zero(m.mem, arg(a, 2) + 0x30)
    };
    lemma_interpolants(m.mem, arg(a, 0), outputs, inputs, 32, i);
}

/// The program register pairs of all stages, in the order in which a table is searched
/// for them when its own stage's are missing.
pub open spec fn listed_pair(q: int) -> (u32, u32) {
    if q == 0 {
        (0x20C, 0x20D)
    } else if q == 1 {
        (0x008, 0x009)
    } else if q == 2 {
        (0x048, 0x049)
    } else if q == 3 {
        (0x0C8, 0x0C9)
    } else if q == 4 {
        (0x08A, 0x08B)
    } else if q == 5 {
        (0x108, 0x109)
    } else {
        (0x148, 0x149)
    }
}

/// No entry of the table is for register `r`.
pub open spec fn no_entry(m: Mem, table: u64, n: int, r: u32) -> bool {
    forall|k: int| 0 <= k < n ==> #[trigger] load_u32(m, table + 8 * k) != Some(r)
}

proof fn lemma_no_entry(m: Mem, table: u64, n: nat, r: u32)
    requires
        entry_offsets(m, table, n) is Some,
        no_entry(m, table, n as int, r),
    ensures
        position(entry_offsets(m, table, n)->0, r) is None,
{
    let f = |k: int| load_u32(m, table + 8 * k);
    let s = entry_offsets(m, table, n)->0;
    assert(entry_offsets(m, table, n) == collect(f, n));
    lemma_collected(f, n);
    assert forall|k: int| 0 <= k < s.len() implies #[trigger] s[k] != r by {
        assert(f(k) == Some(s[k]));
        assert(load_u32(m, table + 8 * k) != Some(r));
    }
    lemma_no_position(s, r);
}

proof fn lemma_first_pair(s: Seq<u32>, pairs: Seq<(u32, u32)>, q: int)
    requires
        0 <= q < pairs.len(),
        find_pair(s, pairs[q]) is Some,
        forall|p: int| 0 <= p < q ==> find_pair(s, #[trigger] pairs[p]) is None,
    ensures
        first_pair(s, pairs) == find_pair(s, pairs[q]),
    decreases pairs.len(),
{
    let init = pairs.drop_last();
    if q < pairs.len() - 1 {
        assert(init[q] == pairs[q]);
        assert forall|p: int| 0 <= p < q implies find_pair(s, #[trigger] init[p]) is None by {
            assert(find_pair(s, pairs[p]) is None);
        }
        lemma_first_pair(s, init, q);
    } else {
        lemma_no_pair(s, init, pairs);
    }
}

proof fn lemma_no_pair(s: Seq<u32>, init: Seq<(u32, u32)>, pairs: Seq<(u32, u32)>)
    requires
        init.len() < pairs.len(),
        forall|p: int| 0 <= p < init.len() ==> init[p] == #[trigger] pairs[p],
        forall|p: int| 0 <= p < init.len() ==> find_pair(s, #[trigger] pairs[p]) is None,
    ensures
        first_pair(s, init) is None,
    decreases init.len(),
{
    if init.len() > 0 {
        let less = init.drop_last();
        assert forall|p: int| 0 <= p < less.len() implies less[p] == #[trigger] pairs[p] by {
            assert(init[p] == pairs[p]);
        }
        lemma_no_pair(s, less, pairs);
        assert(init[init.len() - 1] == pairs[init.len() - 1]);
        assert(find_pair(s, pairs[init.len() - 1]) is None);
    }
}

/// What binding leaves in the two entries that were found.
proof fn lemma_bound_at(m: Mem, header: u64, code: u64, i: int, j: int)
    requires
        bind_program(m, header, code).1,
        ({
            let table = load_u64(m, header + 0x20)->0;
            let kind = load_u8(m, header + 0x5A)->0;
            let n = load_u8(m, header + 0x5C)->0;
            &&& 0 <= i < n
            &&& 0 <= j < n
            &&& i != j
            &&& kind <= 7
            &&& entry_offsets(m, table, n as nat) is Some
            &&& program_entries(entry_offsets(m, table, n as nat)->0, program_registers(kind))
                == Some((i, j))
        }),
    ensures
        ({
            let table = load_u64(m, header + 0x20)->0;
            let after = bind_program(m, header, code).0;
            &&& load_u32(after, table + 8 * i + 4) == Some((code >> 8) as u32)
            &&& load_u32(after, table + 8 * j + 4) == Some(((code >> 40) as u32) & 0xFF)
        }),
{
    let table = load_u64(m, header + 0x20)->0;
    let kind = load_u8(m, header + 0x5A)->0;
    assert(program_pair(kind) == Some(program_registers(kind)));
    let low = (code >> 8) as u32;
    let high = ((code >> 40) as u32) & 0xFF;
    let m1 = put_u32(m, table + 8 * i + 4, low).0;
    let after = put_u32(m1, table + 8 * j + 4, high).0;
    law_read_back_u32(m, table + 8 * i + 4, low);
    law_read_back_u32(m1, table + 8 * j + 4, high);
    lemma_put_u32_keeps_rest(m1, table + 8 * j + 4, high, table + 8 * i + 4, 4);
    lemma_kept_reads(m1, after, table + 8 * i + 4, 4, table + 8 * i + 4, 4);
}

/// A table without its own stage's program registers is searched for those of the
/// other stages, in order, and the first pair that it has gets the code address.
pub proof fn law_created_shader_finds_another_pair(
    m: Machine,
    a: Seq<u64>,
    q: int,
    i: int,
    j: int,
)
    requires
        returned(AgcExport::CreateShader, m, a).1 == 0,
        well_laid_out(m.mem, arg(a, 0), arg(a, 1)),
        0 <= q < 7,
        ({
            let table = leads_to(m.mem, arg(a, 1) + 0x20);
            let kind = load_u8(m.mem, arg(a, 1) + 0x5A)->0;
            let n = load_u8(m.mem, arg(a, 1) + 0x5C)->0;
            &&& 0 <= i < n
            &&& 0 <= j < n
            &&& kind <= 7
            &&& no_entry(m.mem, table, n as int, program_registers(kind).0)
            &&& forall|p: int|
                0 <= p < q ==> no_entry(m.mem, table, n as int, (#[trigger] listed_pair(p)).0)
            &&& first_entry(m.mem, table, i, listed_pair(q).0)
            &&& first_entry(m.mem, table, j, listed_pair(q).1)
        }),
    ensures
        ({
            let table = leads_to(m.mem, arg(a, 1) + 0x20);
            let after = returned(AgcExport::CreateShader, m, a).0.mem;
            let low = load_u32(after, table + 8 * i + 4);
            let high = load_u32(after, table + 8 * j + 4);
            &&& low is Some && high is Some
            &&& (((low->0) as u64) << 8) | (((high->0) as u64) << 40) == arg(a, 2)
                & 0x0000_FFFF_FFFF_FF00
        }),
{
    let destination = arg(a, 0);
    let header = arg(a, 1);
    let code = arg(a, 2);
    let table = leads_to(m.mem, header + 0x20);
    let n = load_u8(m.mem, header + 0x5C)->0;
    let r = relocated(m.mem, header, code);
    let bound = bind_program(r, header, code).0;
    let after = create_shader(m, a).0.mem;
    lemma_created(m, a);
    lemma_relocated(m, a);
    lemma_kept_reads(m.mem, r, header + 0x40, 0x20, header + 0x5A, 1);
    lemma_kept_reads(m.mem, r, header + 0x40, 0x20, header + 0x5C, 1);
    assert(kept(m.mem, r, table as int, 8 * n));
    assert forall|k: int| 0 <= k < n implies #[trigger] load_u32(r, table + 8 * k) == load_u32(
        m.mem,
        table + 8 * k,
    ) by {
        lemma_kept_reads(m.mem, r, table as int, 8 * n, table + 8 * k, 4);
    }
    lemma_other_pair(m.mem, r, header, table, n as nat, q, i, j);
    lemma_bound_at(r, header, code, i, j);
    lemma_put_u64_keeps_rest(bound, destination as int, header, table as int, 8 * n);
    lemma_kept_reads(bound, after, table as int, 8 * n, table + 8 * i + 4, 4);
    lemma_kept_reads(bound, after, table as int, 8 * n, table + 8 * j + 4, 4);
    law_program_registers_hold_code(code);
}

proof fn lemma_other_pair(
    m: Mem,
    r: Mem,
    header: u64,
    table: u64,
    n: nat,
    q: int,
    i: int,
    j: int,
)
    requires
        0 <= q < 7,
        0 <= i < n,
        0 <= j < n,
        forall|k: int|
            0 <= k < n ==> #[trigger] load_u32(r, table + 8 * k) == load_u32(m, table + 8 * k),
        load_u64(r, header + 0x20) == Some(table),
        load_u8(r, header + 0x5C) is Some && load_u8(r, header + 0x5C)->0 == n,
        load_u8(r, header + 0x5A) is Some && load_u8(r, header + 0x5A)->0 <= 7,
        table != 0 && n >= 2,
        entry_offsets(r, table, n) is Some,
        no_entry(m, table, n as int, program_registers(load_u8(r, header + 0x5A)->0).0),
        forall|p: int| 0 <= p < q ==> no_entry(m, table, n as int, (#[trigger] listed_pair(p)).0),
        first_entry(m, table, i, listed_pair(q).0),
        first_entry(m, table, j, listed_pair(q).1),
    ensures
        i != j,
        program_entries(
            entry_offsets(r, table, n)->0,
            program_registers(load_u8(r, header + 0x5A)->0),
        ) == Some((i, j)),
{
    let s = entry_offsets(r, table, n)->0;
    let own = program_registers(load_u8(r, header + 0x5A)->0);
    let pairs = SHADER_PROGRAM_REGISTER_PAIRS@;
    assert(no_entry(r, table, n as int, own.0));
    lemma_no_entry(r, table, n, own.0);
    assert(first_entry(r, table, i, listed_pair(q).0));
    assert(first_entry(r, table, j, listed_pair(q).1));
    lemma_entries(r, table, n, i, listed_pair(q).0);
    lemma_entries(r, table, n, j, listed_pair(q).1);
    assert(pairs.len() == 7);
    assert forall|p: int| 0 <= p < 7 implies #[trigger] pairs[p] == listed_pair(p) by {
        assert(pairs[0] == listed_pair(0) && pairs[1] == listed_pair(1) && pairs[2] == listed_pair(
            2,
        ) && pairs[3] == listed_pair(3) && pairs[4] == listed_pair(4) && pairs[5] == listed_pair(5)
            && pairs[6] == listed_pair(6));
    }
    assert forall|p: int| 0 <= p < q implies find_pair(s, #[trigger] pairs[p]) is None by {
        assert(pairs[p] == listed_pair(p));
        assert(no_entry(m, table, n as int, listed_pair(p).0));
        assert(no_entry(r, table, n as int, listed_pair(p).0));
        lemma_no_entry(r, table, n, listed_pair(p).0);
    }
    assert(pairs[q] == listed_pair(q));
    lemma_first_pair(s, pairs, q);
}

/// A table that has no pair at all cannot be bound, unless it is that of a hull shader
/// that starts with its first resource register (0x10A) or its low program register
/// (0x108), which is left as it is.
pub proof fn law_shader_without_program_registers(m: Mem, header: u64, code: u64)
    requires
        load_u64(m, header + 0x20) is Some,
        load_u8(m, header + 0x5A) is Some,
        load_u8(m, header + 0x5C) is Some,
        ({
            let table = load_u64(m, header + 0x20)->0;
            let n = load_u8(m, header + 0x5C)->0;
            &&& table != 0 && n >= 2
            &&& entry_offsets(m, table, n as nat) is Some
            &&& load_u8(m, header + 0x5A)->0 <= 7
            &&& no_entry(
                m,
                table,
                n as int,
                program_registers(load_u8(m, header + 0x5A)->0).1,
            )
            &&& forall|p: int|
                0 <= p < 7 ==> no_entry(m, table, n as int, (#[trigger] listed_pair(p)).1)
        }),
    ensures
        ({
            let table = load_u64(m, header + 0x20)->0;
            let first = load_u32(m, table as int);
            let kind = load_u8(m, header + 0x5A)->0;
            let (after, usable) = bind_program(m, header, code);
            &&& after == m
            &&& usable <==> kind == 5 && (first == Some(0x10Au32) || first == Some(0x108u32))
        }),
{
    let table = load_u64(m, header + 0x20)->0;
    let n = load_u8(m, header + 0x5C)->0;
    let kind = load_u8(m, header + 0x5A)->0;
    let s = entry_offsets(m, table, n as nat)->0;
    let pairs = SHADER_PROGRAM_REGISTER_PAIRS@;
    lemma_no_entry(m, table, n as nat, program_registers(kind).1);
    assert(pairs.len() == 7);
    assert forall|p: int| 0 <= p < 7 implies find_pair(s, #[trigger] pairs[p]) is None by {
        assert(pairs[0] == listed_pair(0) && pairs[1] == listed_pair(1) && pairs[2] == listed_pair(
            2,
        ) && pairs[3] == listed_pair(3) && pairs[4] == listed_pair(4) && pairs[5] == listed_pair(5)
            && pairs[6] == listed_pair(6));
        assert(no_entry(m, table, n as int, listed_pair(p).1));
        lemma_no_entry(m, table, n as nat, listed_pair(p).1);
    }
    lemma_no_pair(s, pairs, pairs.push((0, 0)));
    let f = |k: int| load_u32(m, table + 8 * k);
    assert(entry_offsets(m, table, n as nat) == collect(f, n as nat));
    lemma_collected(f, n as nat);
    assert(f(0) == Some(s[0]));
}

proof fn lemma_halves_are_there(m: Mem, a: u64, n: nat)
    ensures
        halves(m, a, n) is Some <==> mapped(m, a as int, 2 * n),
    decreases n,
{
    let f = |i: int| load_u16(m, a + 2 * i);
    assert(halves(m, a, n) == collect(f, n));
    if n > 0 {
        let k = (n - 1) as nat;
        lemma_halves_are_there(m, a, k);
        assert(halves(m, a, k) == collect(f, k));
        assert(f(n - 1) is Some <==> mapped(m, a + 2 * k, 2));
        if mapped(m, a as int, 2 * n) {
            assert forall|x: int| a <= x < a + 2 * k implies #[trigger] m.dom().contains(x) by {}
            assert forall|x: int| a + 2 * k <= x < a + 2 * n implies #[trigger] m.dom().contains(
                x,
            ) by {}
        }
    }
}

/// A table of `n` 16-bit entries at `a` can be read: it is empty, or it has an address
/// and all its entries are mapped.
pub open spec fn table_is_there(m: Mem, a: u64, n: u16) -> bool {
    n == 0 || (a != 0 && mapped(m, a as int, 2 * n as nat))
}

/// The user data at `user` can be read: its counts are mapped, no table has more than
/// 16384 entries, nor have the four resource tables together, and all are there.
pub open spec fn user_data_is_there(m: Mem, user: u64) -> bool {
    let n = load_u16(m, user + 0x2C)->0;
    let n0 = load_u16(m, user + 0x2E)->0;
    let n1 = load_u16(m, user + 0x30)->0;
    let n2 = load_u16(m, user + 0x32)->0;
    let n3 = load_u16(m, user + 0x34)->0;
    &&& mapped(m, user + 0x28, 14)
    &&& n <= 16384
    &&& n0 + n1 + n2 + n3 <= 16384
    &&& table_is_there(m, u64_or_zero(m, user as int), n)
    &&& table_is_there(m, u64_or_zero(m, user + 0x08), n0)
    &&& table_is_there(m, u64_or_zero(m, user + 0x10), n1)
    &&& table_is_there(m, u64_or_zero(m, user + 0x18), n2)
    &&& table_is_there(m, u64_or_zero(m, user + 0x20), n3)
}

proof fn lemma_user_data_is_there(m: Mem, user: u64)
    ensures
        user_data_at(m, user) is Some <==> user_data_is_there(m, user),
{
    if mapped(m, user + 0x28, 14) {
        assert forall|k: int| 0 <= k < 7 implies #[trigger] mapped(m, user + 0x28 + 2 * k, 2) by {
            assert forall|x: int| user + 0x28 + 2 * k <= x < user + 0x28 + 2 * k + 2 implies
                #[trigger] m.dom().contains(x) by {}
        }
        assert(mapped(m, user + 0x28 + 2 * 0, 2));
        assert(mapped(m, user + 0x28 + 2 * 1, 2));
        assert(mapped(m, user + 0x28 + 2 * 2, 2));
        assert(mapped(m, user + 0x28 + 2 * 3, 2));
        assert(mapped(m, user + 0x28 + 2 * 4, 2));
        assert(mapped(m, user + 0x28 + 2 * 5, 2));
        assert(mapped(m, user + 0x28 + 2 * 6, 2));
    }
    lemma_halves_are_there(
        m,
        u64_or_zero(m, user as int),
        load_u16(m, user + 0x2C)->0 as nat,
    );
    lemma_halves_are_there(
        m,
        u64_or_zero(m, user + 0x08),
        load_u16(m, user + 0x2E)->0 as nat,
    );
    lemma_halves_are_there(
        m,
        u64_or_zero(m, user + 0x10),
        load_u16(m, user + 0x30)->0 as nat,
    );
    lemma_halves_are_there(
        m,
        u64_or_zero(m, user + 0x18),
        load_u16(m, user + 0x32)->0 as nat,
    );
    lemma_halves_are_there(
        m,
        u64_or_zero(m, user + 0x20),
        load_u16(m, user + 0x34)->0 as nat,
    );
}

/// A shader's data can be mapped exactly where it has at most 16384 input semantics,
/// with an address if there are any, and its user data, if it has any, can be read.
pub proof fn law_data_that_can_be_mapped(m: Mem, header: u64)
    ensures
        ({
            let semantics = u64_or_zero(m, header + 0x30);
            let n = u32_or_zero(m, header + 0x50);
            let user = u64_or_zero(m, header + 0x08);
            mapped_data(m, header) is Some <==> {
                &&& n <= 16384
                &&& n == 0 || semantics != 0
                &&& user == 0 || user_data_is_there(m, user)
            }
        }),
{
    lemma_user_data_is_there(m, u64_or_zero(m, header + 0x08));
}

} // verus!
