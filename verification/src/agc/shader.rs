//! Shader objects: relocating a shader header, binding its code, copying its
//! metadata out, and deriving the register blocks that depend on it.
use vstd::prelude::*;
use crate::agc::packet::lo;
use crate::context::{
    arg, get_arg, GpuLog, HleContext, Machine, Mapped, ShaderMappedData, ShaderSemantic,
    ShaderSharp, ShaderUserData, UserData, OK, SCE_ERROR_INVALID_ARGUMENT, SCE_ERROR_MEMORY_FAULT,
};
use crate::mem::{
    law_read_back_u64, load, load_u16, load_u32, load_u64, load_u8, put, put_u32, put_u64,
    u32_or_zero, u64_or_zero, GuestMemory, Mem,
};

verus! {

pub const SHADER_FILE_HEADER: u32 = 0x3433_3231;

pub const SHADER_VERSION: u32 = 0x18;

pub const SHADER_USER_DATA_OFFSET: u64 = 0x08;

pub const SHADER_CODE_OFFSET: u64 = 0x10;

pub const SHADER_CX_REGISTERS_OFFSET: u64 = 0x18;

pub const SHADER_SH_REGISTERS_OFFSET: u64 = 0x20;

pub const SHADER_SPECIALS_OFFSET: u64 = 0x28;

pub const SHADER_INPUT_SEMANTICS_OFFSET: u64 = 0x30;

pub const SHADER_OUTPUT_SEMANTICS_OFFSET: u64 = 0x38;

pub const SHADER_NUM_INPUT_SEMANTICS_OFFSET: u64 = 0x50;

pub const SHADER_NUM_OUTPUT_SEMANTICS_OFFSET: u64 = 0x56;

pub const SHADER_TYPE_OFFSET: u64 = 0x5A;

pub const SHADER_NUM_SH_REGISTERS_OFFSET: u64 = 0x5C;

/// The pointer fields of a shader header, in the order they are relocated.
pub const HEADER_POINTERS: [u64; 6] = [
    SHADER_CX_REGISTERS_OFFSET,
    SHADER_SH_REGISTERS_OFFSET,
    SHADER_USER_DATA_OFFSET,
    SHADER_SPECIALS_OFFSET,
    SHADER_INPUT_SEMANTICS_OFFSET,
    SHADER_OUTPUT_SEMANTICS_OFFSET,
];

/// The pointer fields of a user-data table: one for direct resources and four
/// for resource slots.
pub const USER_DATA_POINTERS: [u64; 5] = [0x00, 0x08, 0x10, 0x18, 0x20];

pub const COMPUTE_PGM_LO: u32 = 0x20C;

pub const COMPUTE_PGM_HI: u32 = 0x20D;

pub const SPI_SHADER_PGM_LO_PS: u32 = 0x008;

pub const SPI_SHADER_PGM_HI_PS: u32 = 0x009;

pub const SPI_SHADER_PGM_LO_VS: u32 = 0x048;

pub const SPI_SHADER_PGM_HI_VS: u32 = 0x049;

pub const SPI_SHADER_PGM_LO_GS: u32 = 0x08A;

pub const SPI_SHADER_PGM_HI_GS: u32 = 0x08B;

pub const SPI_SHADER_PGM_LO_ES: u32 = 0x0C8;

pub const SPI_SHADER_PGM_HI_ES: u32 = 0x0C9;

pub const SPI_SHADER_PGM_LO_HS: u32 = 0x108;

pub const SPI_SHADER_PGM_HI_HS: u32 = 0x109;

pub const SPI_SHADER_PGM_RSRC1_HS: u32 = 0x10A;

pub const SPI_SHADER_PGM_LO_LS: u32 = 0x148;

pub const SPI_SHADER_PGM_HI_LS: u32 = 0x149;

/// The program-address register pairs of all stages.
pub const SHADER_PROGRAM_REGISTER_PAIRS: [(u32, u32); 7] = [
    (COMPUTE_PGM_LO, COMPUTE_PGM_HI),
    (SPI_SHADER_PGM_LO_PS, SPI_SHADER_PGM_HI_PS),
    (SPI_SHADER_PGM_LO_VS, SPI_SHADER_PGM_HI_VS),
    (SPI_SHADER_PGM_LO_ES, SPI_SHADER_PGM_HI_ES),
    (SPI_SHADER_PGM_LO_GS, SPI_SHADER_PGM_HI_GS),
    (SPI_SHADER_PGM_LO_HS, SPI_SHADER_PGM_HI_HS),
    (SPI_SHADER_PGM_LO_LS, SPI_SHADER_PGM_HI_LS),
];

/// The most entries that a metadata table may have.
pub const MAX_SHADER_METADATA_ENTRIES: usize = 16384;

/// The first of the 32 interpolant registers.
pub const SPI_PS_INPUT_CNTL0: u32 = 0x191;

pub const SPECIAL_GE_CNTL_OFFSET: u64 = 0x00;

pub const SPECIAL_VGT_SHADER_STAGES_EN_OFFSET: u64 = 0x08;

pub const SPECIAL_VGT_GS_OUT_PRIM_TYPE_OFFSET: u64 = 0x20;

pub const SPECIAL_GE_USER_VGPR_EN_OFFSET: u64 = 0x28;

pub const VGT_PRIMITIVE_TYPE: u32 = 0x242;

/// Every value of `f` below `n`, or `None` when one of them is missing.
pub open spec fn collect<T>(f: spec_fn(int) -> Option<T>, n: nat) -> Option<Seq<T>>
    decreases n,
{
    if n == 0 {
        Some(Seq::empty())
    } else {
        match (collect(f, (n - 1) as nat), f(n - 1)) {
            (Some(s), Some(v)) => Some(s.push(v)),
            _ => None,
        }
    }
}

proof fn lemma_collect_stops<T>(f: spec_fn(int) -> Option<T>, k: nat, n: nat)
    requires
        k <= n,
        collect(f, k) is None,
    ensures
        collect(f, n) is None,
    decreases n - k,
{
    if k < n {
        lemma_collect_stops(f, k + 1, n);
    }
}

/// Make the self-relative pointer at `field` absolute; null stays null.
pub open spec fn relocate(m: Mem, field: int) -> (Mem, bool) {
    match load_u64(m, field) {
        None => (m, false),
        Some(rel) => if rel == 0 {
            (m, true)
        } else {
            put_u64(m, field, (field as u64).wrapping_add(rel))
        },
    }
}

/// Relocate the pointers at the given offsets from `base`, one after another,
/// stopping at the first that cannot be.
pub open spec fn relocate_all(m: Mem, base: u64, offsets: Seq<u64>) -> (Mem, bool)
    decreases offsets.len(),
{
    if offsets.len() == 0 {
        (m, true)
    } else {
        let (before, ok) = relocate_all(m, base, offsets.drop_last());
        if ok {
            relocate(before, base + offsets.last())
        } else {
            (before, false)
        }
    }
}

proof fn lemma_relocate_all_stops(m: Mem, base: u64, offsets: Seq<u64>, k: int)
    requires
        0 <= k <= offsets.len(),
        !relocate_all(m, base, offsets.take(k)).1,
    ensures
        relocate_all(m, base, offsets) == relocate_all(m, base, offsets.take(k)),
    decreases offsets.len() - k,
{
    if k == offsets.len() {
        assert(offsets.take(k) =~= offsets);
    } else {
        assert(offsets.take(k + 1).drop_last() =~= offsets.take(k));
        lemma_relocate_all_stops(m, base, offsets, k + 1);
    }
}

/// Relocate the pointer at `base + off`.
fn relocate_pointer_field(mem: &mut GuestMemory, base: u64, off: u64) -> (ok: bool)
    ensures
        final(mem)@ == relocate(old(mem)@, base + off).0,
        ok == relocate(old(mem)@, base + off).1,
{
    match mem.read_u64(base, off) {
        None => false,
        Some(rel) => {
            if rel == 0 {
                return true;
            }
            proof {
                mem.lemma_addresses();
                assert(mem@.dom().contains(base + off));
            }
            let field: u64 = base + off;
            mem.write_u64(base, off, field.wrapping_add(rel))
        },
    }
}

/// Relocate the pointers at `offsets` from `base`.
fn relocate_pointer_fields(mem: &mut GuestMemory, base: u64, offsets: &[u64]) -> (ok: bool)
    ensures
        final(mem)@ == relocate_all(old(mem)@, base, offsets@).0,
        ok == relocate_all(old(mem)@, base, offsets@).1,
{
    let ghost before = mem@;
    let mut i: usize = 0;
    assert(offsets@.take(0) =~= Seq::<u64>::empty());
    while i < offsets.len()
        invariant
            i <= offsets@.len(),
            before == old(mem)@,
            relocate_all(before, base, offsets@.take(i as int)) == (mem@, true),
        decreases offsets@.len() - i,
    {
        proof {
            assert(offsets@.take(i + 1).drop_last() =~= offsets@.take(i as int));
            assert(offsets@.take(i + 1).last() == offsets@[i as int]);
        }
        if !relocate_pointer_field(mem, base, offsets[i]) {
            proof {
                lemma_relocate_all_stops(before, base, offsets@, i + 1);
            }
            return false;
        }
        i += 1;
    }
    assert(offsets@.take(i as int) =~= offsets@);
    true
}

/// The register pair that a shader type's program address belongs in.
pub open spec fn program_pair(shader_type: u8) -> Option<(u32, u32)> {
    if shader_type == 0 {
        Some((COMPUTE_PGM_LO, COMPUTE_PGM_HI))
    } else if shader_type == 1 {
        Some((SPI_SHADER_PGM_LO_PS, SPI_SHADER_PGM_HI_PS))
    } else if shader_type == 2 || shader_type == 6 {
        Some((SPI_SHADER_PGM_LO_ES, SPI_SHADER_PGM_HI_ES))
    } else if shader_type == 3 {
        Some((SPI_SHADER_PGM_LO_VS, SPI_SHADER_PGM_HI_VS))
    } else if shader_type == 4 {
        Some((SPI_SHADER_PGM_LO_GS, SPI_SHADER_PGM_HI_GS))
    } else if shader_type == 5 {
        Some((SPI_SHADER_PGM_LO_HS, SPI_SHADER_PGM_HI_HS))
    } else if shader_type == 7 {
        Some((SPI_SHADER_PGM_LO_LS, SPI_SHADER_PGM_HI_LS))
    } else {
        None
    }
}

/// The register pair of a shader type.
pub fn expected_program_pair(shader_type: u8) -> (r: Option<(u32, u32)>)
    ensures
        r == program_pair(shader_type),
{
    match shader_type {
        0 => Some((COMPUTE_PGM_LO, COMPUTE_PGM_HI)),
        1 => Some((SPI_SHADER_PGM_LO_PS, SPI_SHADER_PGM_HI_PS)),
        2 | 6 => Some((SPI_SHADER_PGM_LO_ES, SPI_SHADER_PGM_HI_ES)),
        3 => Some((SPI_SHADER_PGM_LO_VS, SPI_SHADER_PGM_HI_VS)),
        4 => Some((SPI_SHADER_PGM_LO_GS, SPI_SHADER_PGM_HI_GS)),
        5 => Some((SPI_SHADER_PGM_LO_HS, SPI_SHADER_PGM_HI_HS)),
        7 => Some((SPI_SHADER_PGM_LO_LS, SPI_SHADER_PGM_HI_LS)),
        _ => None,
    }
}

/// The register offsets of the `n` eight-byte entries at `a`.
pub open spec fn entry_offsets(m: Mem, a: u64, n: nat) -> Option<Seq<u32>> {
    collect(|i: int| load_u32(m, a + 8 * i), n)
}

/// Where `v` first occurs in `s`.
pub open spec fn position(s: Seq<u32>, v: u32) -> Option<int>
    decreases s.len(),
{
    if s.len() == 0 {
        None
    } else {
        match position(s.drop_last(), v) {
            Some(i) => Some(i),
            None => if s.last() == v {
                Some(s.len() - 1)
            } else {
                None
            },
        }
    }
}

proof fn lemma_position_prefix(s: Seq<u32>, v: u32, k: int)
    requires
        0 <= k <= s.len(),
        position(s.take(k), v) is Some,
    ensures
        position(s, v) == position(s.take(k), v),
    decreases s.len() - k,
{
    if k == s.len() {
        assert(s.take(k) =~= s);
    } else {
        assert(s.take(k + 1).drop_last() =~= s.take(k));
        lemma_position_prefix(s, v, k + 1);
    }
}

/// Where `v` first occurs in `s`.
fn find_register(s: &Vec<u32>, v: u32) -> (r: Option<usize>)
    ensures
        r is Some == position(s@, v) is Some,
        r is Some ==> r->0 == position(s@, v)->0 && r->0 < s@.len(),
{
    let mut i: usize = 0;
    assert(s@.take(0) =~= Seq::<u32>::empty());
    while i < s.len()
        invariant
            i <= s@.len(),
            position(s@.take(i as int), v) is None,
        decreases s@.len() - i,
    {
        assert(s@.take(i + 1).drop_last() =~= s@.take(i as int));
        if s[i] == v {
            proof {
                lemma_position_prefix(s@, v, i + 1);
            }
            return Some(i);
        }
        i += 1;
    }
    assert(s@.take(i as int) =~= s@);
    None
}

/// Where the two registers of a pair first occur, when both do.
pub open spec fn find_pair(s: Seq<u32>, pair: (u32, u32)) -> Option<(int, int)> {
    match (position(s, pair.0), position(s, pair.1)) {
        (Some(i), Some(j)) => Some((i, j)),
        _ => None,
    }
}

/// A pair of indices as integers.
pub open spec fn as_ints(p: Option<(usize, usize)>) -> Option<(int, int)> {
    match p {
        Some((i, j)) => Some((i as int, j as int)),
        None => None,
    }
}

/// Both indices are below `n`.
pub open spec fn below(p: Option<(usize, usize)>, n: nat) -> bool {
    match p {
        Some((i, j)) => i < n && j < n,
        None => true,
    }
}

fn find_register_pair(s: &Vec<u32>, pair: (u32, u32)) -> (r: Option<(usize, usize)>)
    ensures
        as_ints(r) == find_pair(s@, pair),
        below(r, s@.len()),
{
    match (find_register(s, pair.0), find_register(s, pair.1)) {
        (Some(i), Some(j)) => Some((i, j)),
        _ => None,
    }
}

/// The first of the given pairs that occurs.
pub open spec fn first_pair(s: Seq<u32>, pairs: Seq<(u32, u32)>) -> Option<(int, int)>
    decreases pairs.len(),
{
    if pairs.len() == 0 {
        None
    } else {
        match first_pair(s, pairs.drop_last()) {
            Some(p) => Some(p),
            None => find_pair(s, pairs.last()),
        }
    }
}

proof fn lemma_first_pair_prefix(s: Seq<u32>, pairs: Seq<(u32, u32)>, k: int)
    requires
        0 <= k <= pairs.len(),
        first_pair(s, pairs.take(k)) is Some,
    ensures
        first_pair(s, pairs) == first_pair(s, pairs.take(k)),
    decreases pairs.len() - k,
{
    if k == pairs.len() {
        assert(pairs.take(k) =~= pairs);
    } else {
        assert(pairs.take(k + 1).drop_last() =~= pairs.take(k));
        lemma_first_pair_prefix(s, pairs, k + 1);
    }
}

/// Which two entries hold the program address: those of the type's own pair,
/// else those of the first stage whose pair occurs.
pub open spec fn program_entries(s: Seq<u32>, expected: (u32, u32)) -> Option<(int, int)> {
    match find_pair(s, expected) {
        Some(p) => Some(p),
        None => first_pair(s, SHADER_PROGRAM_REGISTER_PAIRS@),
    }
}

/// Find the two entries that hold the program address.
fn find_program_entries(s: &Vec<u32>, expected: (u32, u32)) -> (r: Option<(usize, usize)>)
    ensures
        as_ints(r) == program_entries(s@, expected),
        below(r, s@.len()),
{
    let own = find_register_pair(s, expected);
    if own.is_some() {
        return own;
    }
    let pairs: [(u32, u32); 7] = SHADER_PROGRAM_REGISTER_PAIRS;
    let mut i: usize = 0;
    assert(pairs@.take(0) =~= Seq::<(u32, u32)>::empty());
    while i < 7
        invariant
            i <= 7,
            pairs@ == SHADER_PROGRAM_REGISTER_PAIRS@,
            find_pair(s@, expected) is None,
            first_pair(s@, pairs@.take(i as int)) is None,
        decreases 7 - i,
    {
        assert(pairs@.take(i + 1).drop_last() =~= pairs@.take(i as int));
        let found = find_register_pair(s, pairs[i]);
        if found.is_some() {
            proof {
                lemma_first_pair_prefix(s@, pairs@, i + 1);
            }
            return found;
        }
        i += 1;
    }
    assert(pairs@.take(i as int) =~= pairs@);
    None
}

/// Write a code address into the program registers of the shader at `header`:
/// 32 bits of it, from bit 8 up, and the 8 bits above those. A hull shader whose
/// table begins with its resource word or program word may lack the pair; the
/// address is then set later. The second result says whether the shader is
/// usable.
pub open spec fn bind_program(m: Mem, header: u64, code: u64) -> (Mem, bool) {
    match (
        load_u64(m, header + SHADER_SH_REGISTERS_OFFSET),
        load_u8(m, header + SHADER_TYPE_OFFSET),
        load_u8(m, header + SHADER_NUM_SH_REGISTERS_OFFSET),
    ) {
        (Some(registers), Some(kind), Some(count)) => if registers == 0 || count < 2 {
            (m, false)
        } else {
            match (program_pair(kind), entry_offsets(m, registers, count as nat)) {
                (Some(expected), Some(entries)) => match program_entries(entries, expected) {
                    Some((i, j)) => {
                        let (m1, ok) = put_u32(m, registers + 8 * i + 4, (code >> 8) as u32);
                        if ok {
                            put_u32(m1, registers + 8 * j + 4, ((code >> 40) as u32) & 0xFF)
                        } else {
                            (m1, false)
                        }
                    },
                    None => (
                        m,
                        kind == 5 && (entries[0] == SPI_SHADER_PGM_RSRC1_HS || entries[0]
                            == SPI_SHADER_PGM_LO_HS),
                    ),
                },
                _ => (m, false),
            }
        },
        _ => (m, false),
    }
}

/// Read the register offsets of the `n` entries at `a`.
fn read_entry_offsets(mem: &GuestMemory, a: u64, n: u8) -> (r: Option<Vec<u32>>)
    ensures
        r is Some == entry_offsets(mem@, a, n as nat) is Some,
        r is Some ==> r->0@ == entry_offsets(mem@, a, n as nat)->0,
        r is Some ==> r->0@.len() == n,
{
    let ghost f = |i: int| load_u32(mem@, a + 8 * i);
    let mut out: Vec<u32> = Vec::new();
    let mut i: u8 = 0;
    while i < n
        invariant
            i <= n,
            f == (|i: int| load_u32(mem@, a + 8 * i)),
            out@.len() == i,
            collect(f, i as nat) == Some(out@),
        decreases n - i,
    {
        proof {
            if collect(f, (i + 1) as nat) is None {
                lemma_collect_stops(f, (i + 1) as nat, n as nat);
            }
        }
        match mem.read_u32(a, 8 * (i as u64)) {
            Some(v) => out.push(v),
            None => {
                return None;
            },
        }
        i += 1;
    }
    Some(out)
}

/// Bind a shader's code address into its program registers.
fn patch_shader_program_registers(mem: &mut GuestMemory, header: u64, code: u64) -> (ok: bool)
    ensures
        final(mem)@ == bind_program(old(mem)@, header, code).0,
        ok == bind_program(old(mem)@, header, code).1,
{
    let (registers, kind, count): (u64, u8, u8) = match (
        mem.read_u64(header, SHADER_SH_REGISTERS_OFFSET),
        mem.read_u8(header, SHADER_TYPE_OFFSET),
        mem.read_u8(header, SHADER_NUM_SH_REGISTERS_OFFSET),
    ) {
        (Some(registers), Some(kind), Some(count)) => (registers, kind, count),
        _ => {
            return false;
        },
    };
    if registers == 0 || count < 2 {
        return false;
    }
    let expected = match expected_program_pair(kind) {
        Some(pair) => pair,
        None => {
            return false;
        },
    };
    let entries = match read_entry_offsets(mem, registers, count) {
        Some(entries) => entries,
        None => {
            return false;
        },
    };
    match find_program_entries(&entries, expected) {
        Some((i, j)) => {
            if !mem.write_u32(registers, 8 * (i as u64) + 4, (code >> 8) as u32) {
                return false;
            }
            mem.write_u32(registers, 8 * (j as u64) + 4, ((code >> 40) as u32) & 0xFF)
        },
        None => kind == 5 && (entries[0] == SPI_SHADER_PGM_RSRC1_HS || entries[0]
            == SPI_SHADER_PGM_LO_HS),
    }
}

/// The `n` 16-bit values at `a`.
pub open spec fn halves(m: Mem, a: u64, n: nat) -> Option<Seq<u16>> {
    collect(|i: int| load_u16(m, a + 2 * i), n)
}

/// The `n` resource slots at `a`.
pub open spec fn sharps(m: Mem, a: u64, n: nat) -> Option<Seq<ShaderSharp>> {
    match halves(m, a, n) {
        Some(s) => Some(s.map_values(|raw: u16| ShaderSharp { raw })),
        None => None,
    }
}

/// The user-data tables at `at`, or `None` when a table is unreadable, null
/// with entries, or too long.
pub open spec fn user_data_at(m: Mem, at: u64) -> Option<UserData> {
    let direct = u64_or_zero(m, at as int);
    let a0 = u64_or_zero(m, at + 0x08);
    let a1 = u64_or_zero(m, at + 0x10);
    let a2 = u64_or_zero(m, at + 0x18);
    let a3 = u64_or_zero(m, at + 0x20);
    match (
        load_u16(m, at + 0x28),
        load_u16(m, at + 0x2A),
        load_u16(m, at + 0x2C),
        load_u16(m, at + 0x2E),
        load_u16(m, at + 0x30),
        load_u16(m, at + 0x32),
        load_u16(m, at + 0x34),
    ) {
        (Some(eud), Some(srt), Some(n), Some(n0), Some(n1), Some(n2), Some(n3)) => if n
            > MAX_SHADER_METADATA_ENTRIES || n0 + n1 + n2 + n3 > MAX_SHADER_METADATA_ENTRIES || (n
            != 0 && direct == 0) || (n0 != 0 && a0 == 0) || (n1 != 0 && a1 == 0) || (n2 != 0 && a2
            == 0) || (n3 != 0 && a3 == 0) {
            None
        } else {
            match (
                halves(m, direct, n as nat),
                sharps(m, a0, n0 as nat),
                sharps(m, a1, n1 as nat),
                sharps(m, a2, n2 as nat),
                sharps(m, a3, n3 as nat),
            ) {
                (Some(d), Some(s0), Some(s1), Some(s2), Some(s3)) => Some(
                    UserData {
                        direct: d,
                        sharps: seq![s0, s1, s2, s3],
                        eud_size_dw: eud,
                        srt_size_dw: srt,
                    },
                ),
                _ => None,
            }
        },
        _ => None,
    }
}

/// The metadata of the shader at `header`, or `None` when it is malformed. A
/// shader may have no user-data tables; unreadable semantics read as zero.
pub open spec fn mapped_data(m: Mem, header: u64) -> Option<Mapped> {
    let user = u64_or_zero(m, header + SHADER_USER_DATA_OFFSET);
    let semantics = u64_or_zero(m, header + SHADER_INPUT_SEMANTICS_OFFSET);
    let n = u32_or_zero(m, header + SHADER_NUM_INPUT_SEMANTICS_OFFSET);
    if (user != 0 && user_data_at(m, user) is None) || n > MAX_SHADER_METADATA_ENTRIES || (n != 0
        && semantics == 0) {
        None
    } else {
        Some(
            Mapped {
                user_data: if user == 0 {
                    None
                } else {
                    user_data_at(m, user)
                },
                semantics: Seq::new(
                    n as nat,
                    |i: int| ShaderSemantic { raw: u32_or_zero(m, semantics + 4 * i) },
                ),
            },
        )
    }
}

/// Read the `n` 16-bit values at `a`.
fn read_halves(mem: &GuestMemory, a: u64, n: u16) -> (r: Option<Vec<u16>>)
    ensures
        r is Some == halves(mem@, a, n as nat) is Some,
        r is Some ==> r->0@ == halves(mem@, a, n as nat)->0,
{
    let ghost f = |i: int| load_u16(mem@, a + 2 * i);
    let mut out: Vec<u16> = Vec::new();
    let mut i: u16 = 0;
    while i < n
        invariant
            i <= n,
            f == (|i: int| load_u16(mem@, a + 2 * i)),
            collect(f, i as nat) == Some(out@),
        decreases n - i,
    {
        proof {
            if collect(f, (i + 1) as nat) is None {
                lemma_collect_stops(f, (i + 1) as nat, n as nat);
            }
        }
        match mem.read_u16(a, 2 * (i as u64)) {
            Some(v) => out.push(v),
            None => {
                return None;
            },
        }
        i += 1;
    }
    Some(out)
}

/// Read the `n` resource slots at `a`.
fn read_sharps(mem: &GuestMemory, a: u64, n: u16) -> (r: Option<Vec<ShaderSharp>>)
    ensures
        r is Some == sharps(mem@, a, n as nat) is Some,
        r is Some ==> r->0@ == sharps(mem@, a, n as nat)->0,
{
    let raw = match read_halves(mem, a, n) {
        Some(raw) => raw,
        None => {
            return None;
        },
    };
    let mut out: Vec<ShaderSharp> = Vec::new();
    let mut i: usize = 0;
    while i < raw.len()
        invariant
            i <= raw@.len(),
            out@.len() == i,
            forall|j: int| 0 <= j < i ==> #[trigger] out@[j] == (ShaderSharp { raw: raw@[j] }),
        decreases raw@.len() - i,
    {
        out.push(ShaderSharp { raw: raw[i] });
        i += 1;
    }
    assert(out@ =~= raw@.map_values(|raw: u16| ShaderSharp { raw }));
    Some(out)
}

/// Read the user-data tables at `at`.
fn read_user_data(mem: &GuestMemory, at: u64) -> (r: Option<ShaderUserData>)
    ensures
        r is Some == user_data_at(mem@, at) is Some,
        r is Some ==> r->0@ == user_data_at(mem@, at)->0,
{
    let direct: u64 = mem.read_u64_or_zero(at, 0);
    let a0: u64 = mem.read_u64_or_zero(at, 0x08);
    let a1: u64 = mem.read_u64_or_zero(at, 0x10);
    let a2: u64 = mem.read_u64_or_zero(at, 0x18);
    let a3: u64 = mem.read_u64_or_zero(at, 0x20);
    let eud = mem.read_u16(at, 0x28);
    let srt = mem.read_u16(at, 0x2A);
    let n = mem.read_u16(at, 0x2C);
    let n0 = mem.read_u16(at, 0x2E);
    let n1 = mem.read_u16(at, 0x30);
    let n2 = mem.read_u16(at, 0x32);
    let n3 = mem.read_u16(at, 0x34);
    match (eud, srt, n, n0, n1, n2, n3) {
        (Some(eud), Some(srt), Some(n), Some(n0), Some(n1), Some(n2), Some(n3)) => {
            let total: u32 = n0 as u32 + n1 as u32 + n2 as u32 + n3 as u32;
            if n as usize > MAX_SHADER_METADATA_ENTRIES || total
                > MAX_SHADER_METADATA_ENTRIES as u32 || (n != 0 && direct == 0) || (n0 != 0 && a0
                == 0) || (n1 != 0 && a1 == 0) || (n2 != 0 && a2 == 0) || (n3 != 0 && a3 == 0) {
                return None;
            }
            let d = read_halves(mem, direct, n);
            let s0 = read_sharps(mem, a0, n0);
            let s1 = read_sharps(mem, a1, n1);
            let s2 = read_sharps(mem, a2, n2);
            let s3 = read_sharps(mem, a3, n3);
            match (d, s0, s1, s2, s3) {
                (Some(d), Some(s0), Some(s1), Some(s2), Some(s3)) => {
                    let r = ShaderUserData {
                        direct_resource_offset: d,
                        sharp_resource_offset: vec![s0, s1, s2, s3],
                        eud_size_dw: eud,
                        srt_size_dw: srt,
                    };
                    assert(r@.sharps =~= seq![s0@, s1@, s2@, s3@]);
                    Some(r)
                },
                _ => None,
            }
        },
        _ => None,
    }
}

/// Copy the metadata of the shader at `header` out of guest memory.
pub fn read_shader_mapped_data(mem: &GuestMemory, header: u64) -> (r: Option<ShaderMappedData>)
    ensures
        r is Some == mapped_data(mem@, header) is Some,
        r is Some ==> r->0@ == mapped_data(mem@, header)->0,
{
    let user: u64 = mem.read_u64_or_zero(header, SHADER_USER_DATA_OFFSET);
    let user_data = if user == 0 {
        None
    } else {
        match read_user_data(mem, user) {
            Some(u) => Some(u),
            None => {
                return None;
            },
        }
    };
    let semantics: u64 = mem.read_u64_or_zero(header, SHADER_INPUT_SEMANTICS_OFFSET);
    let n: u32 = mem.read_u32_or_zero(header, SHADER_NUM_INPUT_SEMANTICS_OFFSET);
    if n as usize > MAX_SHADER_METADATA_ENTRIES || (n != 0 && semantics == 0) {
        return None;
    }
    let mut out: Vec<ShaderSemantic> = Vec::new();
    let mut i: u32 = 0;
    while i < n
        invariant
            i <= n,
            out@.len() == i,
            forall|j: int|
                0 <= j < i ==> #[trigger] out@[j] == (ShaderSemantic {
                    raw: u32_or_zero(mem@, semantics + 4 * j),
                }),
        decreases n - i,
    {
        out.push(ShaderSemantic { raw: mem.read_u32_or_zero(semantics, 4 * (i as u64)) });
        i += 1;
    }
    let r = ShaderMappedData { user_data, input_semantics: out };
    assert(r@.semantics =~= mapped_data(mem@, header)->0.semantics);
    Some(r)
}

/// The machine with `entry` added to the shader metadata handed to the GPU.
pub open spec fn map_shader(m: Machine, code: u64, data: Mapped) -> Machine {
    Machine { gpu: GpuLog { mapped: m.gpu.mapped.push((code, data)), ..m.gpu }, ..m }
}

/// Hand a shader's metadata to the GPU.
fn map_shader_metadata(ctx: &mut HleContext, code: u64, data: ShaderMappedData)
    ensures
        final(ctx)@ == map_shader(old(ctx)@, code, data@),
{
    ctx.gpu.mapped.push((code, data));
    proof {
        let log = old(ctx)@.gpu.mapped;
        assert(ctx@.gpu.mapped =~= log.push((code, data@)));
    }
}

/// A failed step of shader creation: the memory so far and the error.
pub open spec fn shader_error(m: Machine, mem: Mem, code: u64) -> (Machine, u64) {
    (m.with_mem(mem), code)
}

/// Create a shader: check magic and version, make the header's pointers and
/// those of its user-data table absolute, bind the code, hand the metadata to
/// the GPU and publish the header's address.
pub open spec fn create_shader(m: Machine, a: Seq<u64>) -> (Machine, u64) {
    let destination = arg(a, 0);
    let header = arg(a, 1);
    let code = arg(a, 2);
    if header == 0 || code == 0 {
        (m, SCE_ERROR_INVALID_ARGUMENT)
    } else {
        match (load_u32(m.mem, header as int), load_u32(m.mem, header + 4)) {
            (Some(magic), Some(version)) => if magic != SHADER_FILE_HEADER || version
                != SHADER_VERSION {
                (m, SCE_ERROR_INVALID_ARGUMENT)
            } else {
                let (m1, ok1) = relocate_all(m.mem, header, HEADER_POINTERS@);
                let (m2, ok2) = put_u64(m1, header + SHADER_CODE_OFFSET, code);
                if !ok1 {
                    shader_error(m, m1, SCE_ERROR_MEMORY_FAULT)
                } else if !ok2 {
                    shader_error(m, m1, SCE_ERROR_MEMORY_FAULT)
                } else {
                    match load_u64(m2, header + SHADER_USER_DATA_OFFSET) {
                        None => shader_error(m, m2, SCE_ERROR_MEMORY_FAULT),
                        Some(user) => {
                            let (m3, ok3) = if user == 0 {
                                (m2, true)
                            } else {
                                relocate_all(m2, user, USER_DATA_POINTERS@)
                            };
                            if !ok3 {
                                shader_error(m, m3, SCE_ERROR_MEMORY_FAULT)
                            } else {
                                publish_shader(m.with_mem(m3), destination, header, code)
                            }
                        },
                    }
                }
            },
            _ => (m, SCE_ERROR_MEMORY_FAULT),
        }
    }
}

/// The last steps of shader creation, once the header is relocated.
pub open spec fn publish_shader(m: Machine, destination: u64, header: u64, code: u64) -> (
    Machine,
    u64,
) {
    let (bound, usable) = bind_program(m.mem, header, code);
    if !usable {
        (m.with_mem(bound), SCE_ERROR_INVALID_ARGUMENT)
    } else {
        match mapped_data(bound, header) {
            None => (m.with_mem(bound), SCE_ERROR_MEMORY_FAULT),
            Some(data) => {
                let (mem, ok) = put_u64(bound, destination as int, header);
                (map_shader(m.with_mem(mem), code, data), if ok {
                    OK
                } else {
                    SCE_ERROR_MEMORY_FAULT
                })
            },
        }
    }
}

/// `sceAgcCreateShader(destination, header, code)`.
pub fn hle_create_shader(ctx: &mut HleContext, args: &[u64]) -> (r: u64)
    ensures
        final(ctx)@ == create_shader(old(ctx)@, args@).0,
        r == create_shader(old(ctx)@, args@).1,
{
    let destination: u64 = get_arg(args, 0);
    let header: u64 = get_arg(args, 1);
    let code: u64 = get_arg(args, 2);
    if header == 0 || code == 0 {
        return SCE_ERROR_INVALID_ARGUMENT;
    }
    match (ctx.mem.read_u32(header, 0), ctx.mem.read_u32(header, 4)) {
        (Some(magic), Some(version)) => {
            if magic != SHADER_FILE_HEADER || version != SHADER_VERSION {
                return SCE_ERROR_INVALID_ARGUMENT;
            }
        },
        _ => {
            return SCE_ERROR_MEMORY_FAULT;
        },
    }
    let pointers: [u64; 6] = HEADER_POINTERS;
    if !relocate_pointer_fields(&mut ctx.mem, header, &pointers) {
        return SCE_ERROR_MEMORY_FAULT;
    }
    if !ctx.mem.write_u64(header, SHADER_CODE_OFFSET, code) {
        return SCE_ERROR_MEMORY_FAULT;
    }
    let user: u64 = match ctx.mem.read_u64(header, SHADER_USER_DATA_OFFSET) {
        Some(user) => user,
        None => {
            return SCE_ERROR_MEMORY_FAULT;
        },
    };
    if user != 0 {
        let tables: [u64; 5] = USER_DATA_POINTERS;
        if !relocate_pointer_fields(&mut ctx.mem, user, &tables) {
            return SCE_ERROR_MEMORY_FAULT;
        }
    }
    if !patch_shader_program_registers(&mut ctx.mem, header, code) {
        return SCE_ERROR_INVALID_ARGUMENT;
    }
    let data = match read_shader_mapped_data(&ctx.mem, header) {
        Some(data) => data,
        None => {
            return SCE_ERROR_MEMORY_FAULT;
        },
    };
    map_shader_metadata(ctx, code, data);
    if !ctx.mem.write_u64(destination, 0, header) {
        return SCE_ERROR_MEMORY_FAULT;
    }
    OK
}

/// A relocated pointer is its own address plus what it held, and null stays
/// null.
pub proof fn law_relocated_pointer(m: Mem, field: int)
    requires
        relocate(m, field).1,
    ensures
        load_u64(m, field) is Some,
        load_u64(relocate(m, field).0, field) == if load_u64(m, field)->0 == 0 {
            Some(0u64)
        } else {
            Some((field as u64).wrapping_add(load_u64(m, field)->0))
        },
{
    if load_u64(m, field)->0 != 0 {
        law_read_back_u64(m, field, (field as u64).wrapping_add(load_u64(m, field)->0));
    }
}

/// A shader that was created is published: its destination holds the address of
/// its header, and its metadata is the last that the GPU was handed, under the
/// address of its code.
pub proof fn law_created_shader_is_published(m: Machine, a: Seq<u64>)
    requires
        create_shader(m, a).1 == OK,
    ensures
        load_u64(create_shader(m, a).0.mem, arg(a, 0) as int) == Some(arg(a, 1)),
        create_shader(m, a).0.gpu.mapped.len() == m.gpu.mapped.len() + 1,
        create_shader(m, a).0.gpu.mapped.last().0 == arg(a, 2),
{
    let header = arg(a, 1);
    let code = arg(a, 2);
    let m1 = relocate_all(m.mem, header, HEADER_POINTERS@).0;
    let m2 = put_u64(m1, header + SHADER_CODE_OFFSET, code).0;
    let user = load_u64(m2, header + SHADER_USER_DATA_OFFSET)->0;
    let m3 = if user == 0 {
        m2
    } else {
        relocate_all(m2, user, USER_DATA_POINTERS@).0
    };
    law_read_back_u64(bind_program(m3, header, code).0, arg(a, 0) as int, header);
}

/// The two program registers together hold the code address: 40 bits of it,
/// from bit 8 up.
pub proof fn law_program_registers_hold_code(code: u64)
    ensures
        ((((code >> 8) as u32) as u64) << 8) | ((((code >> 40) as u32 & 0xFF) as u64) << 40) == code
            & 0x0000_FFFF_FFFF_FF00,
{
    assert(((((code >> 8) as u32) as u64) << 8) | ((((code >> 40) as u32 & 0xFF) as u64) << 40)
        == code & 0x0000_FFFF_FFFF_FF00) by (bit_vector);
}

/// Copy an eight-byte register from `src` to `dst`, after a step that may have
/// failed.
pub open spec fn then_copy_register(p: (Mem, bool), src: int, dst: int) -> (Mem, bool) {
    if !p.1 {
        p
    } else {
        match load(p.0, src, 8) {
            None => (p.0, false),
            Some(b) => put(p.0, dst, b),
        }
    }
}

/// Write a DWORD, after a step that may have failed.
pub open spec fn then_put_u32(p: (Mem, bool), a: int, v: u32) -> (Mem, bool) {
    if !p.1 {
        p
    } else {
        put_u32(p.0, a, v)
    }
}

/// The context- and UCONFIG-register blocks of a primitive state, from the
/// geometry shader's table of special registers.
pub open spec fn prim_state_blocks(
    m: Mem,
    cx: u64,
    uc: u64,
    specials: u64,
    primitive_type: u32,
) -> (Mem, bool) {
    let p = then_copy_register((m, true), specials + SPECIAL_VGT_SHADER_STAGES_EN_OFFSET, cx as int);
    let p = then_copy_register(p, specials + SPECIAL_VGT_GS_OUT_PRIM_TYPE_OFFSET, cx + 8);
    let p = then_copy_register(p, specials + SPECIAL_GE_CNTL_OFFSET, uc as int);
    let p = then_copy_register(p, specials + SPECIAL_GE_USER_VGPR_EN_OFFSET, uc + 8);
    let p = then_put_u32(p, uc + 16, VGT_PRIMITIVE_TYPE);
    then_put_u32(p, uc + 20, primitive_type)
}

/// Assemble the register blocks of a primitive state. Hull shaders are not
/// supported.
pub open spec fn create_prim_state(m: Machine, a: Seq<u64>) -> (Machine, u64) {
    let cx = arg(a, 0);
    let uc = arg(a, 1);
    let geometry = arg(a, 3);
    if cx == 0 || uc == 0 || arg(a, 2) != 0 || geometry == 0 {
        (m, SCE_ERROR_INVALID_ARGUMENT)
    } else {
        match load_u64(m.mem, geometry + SHADER_SPECIALS_OFFSET) {
            None => (m, SCE_ERROR_MEMORY_FAULT),
            Some(specials) => if specials == 0 {
                (m, SCE_ERROR_INVALID_ARGUMENT)
            } else {
                let (mem, ok) = prim_state_blocks(m.mem, cx, uc, specials, lo(arg(a, 4)));
                (m.with_mem(mem), if ok {
                    OK
                } else {
                    SCE_ERROR_MEMORY_FAULT
                })
            },
        }
    }
}

/// Copy the eight-byte register at `src + src_off` to `dst + dst_off`.
fn copy_shader_register(
    mem: &mut GuestMemory,
    src: u64,
    src_off: u64,
    dst: u64,
    dst_off: u64,
) -> (ok: bool)
    ensures
        final(mem)@ == then_copy_register((old(mem)@, true), src + src_off, dst + dst_off).0,
        ok == then_copy_register((old(mem)@, true), src + src_off, dst + dst_off).1,
{
    match mem.read(src, src_off, 8) {
        None => false,
        Some(b) => mem.write(dst, dst_off, b.as_slice()),
    }
}

/// `sceAgcCreatePrimState(cxRegisters, ucRegisters, hullShader, geometryShader,
/// primitiveType)`.
pub fn hle_create_prim_state(ctx: &mut HleContext, args: &[u64]) -> (r: u64)
    ensures
        final(ctx)@ == create_prim_state(old(ctx)@, args@).0,
        r == create_prim_state(old(ctx)@, args@).1,
{
    let cx: u64 = get_arg(args, 0);
    let uc: u64 = get_arg(args, 1);
    let geometry: u64 = get_arg(args, 3);
    let primitive_type: u32 = get_arg(args, 4) as u32;
    if cx == 0 || uc == 0 || get_arg(args, 2) != 0 || geometry == 0 {
        return SCE_ERROR_INVALID_ARGUMENT;
    }
    let specials: u64 = match ctx.mem.read_u64(geometry, SHADER_SPECIALS_OFFSET) {
        Some(specials) => specials,
        None => {
            return SCE_ERROR_MEMORY_FAULT;
        },
    };
    if specials == 0 {
        return SCE_ERROR_INVALID_ARGUMENT;
    }
    if !copy_shader_register(
        &mut ctx.mem,
        specials,
        SPECIAL_VGT_SHADER_STAGES_EN_OFFSET,
        cx,
        0,
    ) {
        return SCE_ERROR_MEMORY_FAULT;
    }
    if !copy_shader_register(
        &mut ctx.mem,
        specials,
        SPECIAL_VGT_GS_OUT_PRIM_TYPE_OFFSET,
        cx,
        8,
    ) {
        return SCE_ERROR_MEMORY_FAULT;
    }
    if !copy_shader_register(&mut ctx.mem, specials, SPECIAL_GE_CNTL_OFFSET, uc, 0) {
        return SCE_ERROR_MEMORY_FAULT;
    }
    if !copy_shader_register(&mut ctx.mem, specials, SPECIAL_GE_USER_VGPR_EN_OFFSET, uc, 8) {
        return SCE_ERROR_MEMORY_FAULT;
    }
    if !ctx.mem.write_u32(uc, 16, VGT_PRIMITIVE_TYPE) {
        return SCE_ERROR_MEMORY_FAULT;
    }
    if !ctx.mem.write_u32(uc, 20, primitive_type) {
        return SCE_ERROR_MEMORY_FAULT;
    }
    OK
}

/// The value of interpolant register `i`: the interpolant's number, with the
/// flat-shading bit when the pixel shader's input semantic asks for it; zero
/// past the geometry shader's outputs.
pub open spec fn interpolant(m: Mem, outputs: u32, inputs: u64, i: int) -> u32 {
    if i >= outputs {
        0
    } else if inputs != 0 && (u32_or_zero(m, inputs + 4 * i) >> 22) & 1 != 0 {
        i as u32 | 0x400
    } else {
        i as u32
    }
}

/// Memory after writing the first `n` interpolant registers, stopping at the
/// first failure.
pub open spec fn interpolants(m: Mem, registers: u64, outputs: u32, inputs: u64, n: nat) -> (
    Mem,
    bool,
)
    decreases n,
{
    if n == 0 {
        (m, true)
    } else {
        let i = n - 1;
        let before = interpolants(m, registers, outputs, inputs, (n - 1) as nat);
        let value = interpolant(before.0, outputs, inputs, i);
        let p = then_put_u32(before, registers + 8 * i, (SPI_PS_INPUT_CNTL0 + i) as u32);
        then_put_u32(p, registers + 8 * i + 4, value)
    }
}

proof fn lemma_interpolants_stops(
    m: Mem,
    registers: u64,
    outputs: u32,
    inputs: u64,
    k: nat,
    n: nat,
)
    requires
        k <= n,
        !interpolants(m, registers, outputs, inputs, k).1,
    ensures
        interpolants(m, registers, outputs, inputs, n) == interpolants(
            m,
            registers,
            outputs,
            inputs,
            k,
        ),
    decreases n - k,
{
    if k < n {
        lemma_interpolants_stops(m, registers, outputs, inputs, k + 1, n);
    }
}

/// The number of interpolants that a geometry shader provides; none without a
/// table of output semantics.
pub open spec fn output_count(m: Mem, geometry: u64) -> u32 {
    if u64_or_zero(m, geometry + SHADER_OUTPUT_SEMANTICS_OFFSET) == 0 {
        0
    } else {
        u32_or_zero(m, geometry + SHADER_NUM_OUTPUT_SEMANTICS_OFFSET)
    }
}

/// Build the 32 interpolant registers that connect a geometry shader with an
/// optional pixel shader.
pub open spec fn create_interpolant_mapping(m: Machine, a: Seq<u64>) -> (Machine, u64) {
    let registers = arg(a, 0);
    let geometry = arg(a, 1);
    let pixel = arg(a, 2);
    if registers == 0 || geometry == 0 {
        (m, SCE_ERROR_INVALID_ARGUMENT)
    } else {
        let inputs = if pixel == 0 {
            0
        } else {
            u64_or_zero(m.mem, pixel + SHADER_INPUT_SEMANTICS_OFFSET)
        };
        let (mem, ok) = interpolants(m.mem, registers, output_count(m.mem, geometry), inputs, 32);
        (m.with_mem(mem), if ok {
            OK
        } else {
            SCE_ERROR_MEMORY_FAULT
        })
    }
}

/// `sceAgcCreateInterpolantMapping(registers, geometryShader, pixelShader)`.
pub fn hle_create_interpolant_mapping(ctx: &mut HleContext, args: &[u64]) -> (r: u64)
    ensures
        final(ctx)@ == create_interpolant_mapping(old(ctx)@, args@).0,
        r == create_interpolant_mapping(old(ctx)@, args@).1,
{
    let registers: u64 = get_arg(args, 0);
    let geometry: u64 = get_arg(args, 1);
    let pixel: u64 = get_arg(args, 2);
    if registers == 0 || geometry == 0 {
        return SCE_ERROR_INVALID_ARGUMENT;
    }
    let outputs: u32 = if ctx.mem.read_u64_or_zero(geometry, SHADER_OUTPUT_SEMANTICS_OFFSET) == 0 {
        0
    } else {
        ctx.mem.read_u32_or_zero(geometry, SHADER_NUM_OUTPUT_SEMANTICS_OFFSET)
    };
    let inputs: u64 = if pixel == 0 {
        0
    } else {
        ctx.mem.read_u64_or_zero(pixel, SHADER_INPUT_SEMANTICS_OFFSET)
    };
    let ghost before = ctx@;
    let mut i: u32 = 0;
    while i < 32
        invariant
            i <= 32,
            before == old(ctx)@,
            interpolants(before.mem, registers, outputs, inputs, i as nat) == (ctx@.mem, true),
            ctx@ == before.with_mem(ctx@.mem),
            create_interpolant_mapping(before, args@) == ({
                let (mem, ok) = interpolants(before.mem, registers, outputs, inputs, 32);
                (before.with_mem(mem), if ok {
                    OK
                } else {
                    SCE_ERROR_MEMORY_FAULT
                })
            }),
        decreases 32 - i,
    {
        let value: u32 = if i >= outputs {
            0
        } else if inputs != 0 && (ctx.mem.read_u32_or_zero(inputs, 4 * (i as u64)) >> 22) & 1 != 0 {
            i | 0x400
        } else {
            i
        };
        let off: u64 = 8 * (i as u64);
        if !ctx.mem.write_u32(registers, off, SPI_PS_INPUT_CNTL0 + i) {
            proof {
                lemma_interpolants_stops(
                    before.mem,
                    registers,
                    outputs,
                    inputs,
                    (i + 1) as nat,
                    32,
                );
            }
            return SCE_ERROR_MEMORY_FAULT;
        }
        if !ctx.mem.write_u32(registers, off + 4, value) {
            proof {
                lemma_interpolants_stops(
                    before.mem,
                    registers,
                    outputs,
                    inputs,
                    (i + 1) as nat,
                    32,
                );
            }
            return SCE_ERROR_MEMORY_FAULT;
        }
        i += 1;
    }
    OK
}

} // verus!
