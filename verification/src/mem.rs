//! Guest memory: a sparse byte-addressed space made of mapped regions.
//!
//! The view of a [`GuestMemory`] is the map from every mapped address to its
//! byte. Addresses in specifications are mathematical integers; an access whose
//! range leaves the 64-bit space is simply an access to unmapped addresses.
use vstd::prelude::*;
use crate::bytes::{
    lemma_auto_spec_u32_to_from_le_bytes, lemma_auto_spec_u64_to_from_le_bytes,
    spec_u16_from_le_bytes, spec_u32_from_le_bytes, spec_u32_to_le_bytes,
    spec_u64_from_le_bytes, spec_u64_to_le_bytes, u16_from_le_bytes, u32_from_le_bytes,
    u32_to_le_bytes, u64_from_le_bytes, u64_to_le_bytes,
};

verus! {

/// The contents of guest memory: every mapped address with its byte.
pub type Mem = Map<int, u8>;

/// Every address of `[a, a + n)` is mapped.
pub open spec fn mapped(m: Mem, a: int, n: nat) -> bool {
    forall|i: int| a <= i < a + n ==> #[trigger] m.dom().contains(i)
}

/// The bytes at `[a, a + n)`, or `None` when one of them is unmapped.
pub open spec fn load(m: Mem, a: int, n: nat) -> Option<Seq<u8>> {
    if mapped(m, a, n) {
        Some(Seq::new(n, |i: int| m[a + i]))
    } else {
        None
    }
}

/// `m` with `b` written at `a`; the mapping itself never changes.
pub open spec fn store(m: Mem, a: int, b: Seq<u8>) -> Mem {
    Map::new(|x: int| m.dom().contains(x), |x: int| if a <= x < a + b.len() { b[x - a] } else { m[x] })
}

/// An all-or-nothing write: the resulting memory, and whether it happened.
pub open spec fn put(m: Mem, a: int, b: Seq<u8>) -> (Mem, bool) {
    if mapped(m, a, b.len()) {
        (store(m, a, b), true)
    } else {
        (m, false)
    }
}

pub open spec fn load_u8(m: Mem, a: int) -> Option<u8> {
    match load(m, a, 1) {
        Some(b) => Some(b[0]),
        None => None,
    }
}

pub open spec fn load_u16(m: Mem, a: int) -> Option<u16> {
    match load(m, a, 2) {
        Some(b) => Some(spec_u16_from_le_bytes(b)),
        None => None,
    }
}

pub open spec fn load_u32(m: Mem, a: int) -> Option<u32> {
    match load(m, a, 4) {
        Some(b) => Some(spec_u32_from_le_bytes(b)),
        None => None,
    }
}

pub open spec fn load_u64(m: Mem, a: int) -> Option<u64> {
    match load(m, a, 8) {
        Some(b) => Some(spec_u64_from_le_bytes(b)),
        None => None,
    }
}

pub open spec fn put_u32(m: Mem, a: int, v: u32) -> (Mem, bool) {
    put(m, a, spec_u32_to_le_bytes(v))
}

pub open spec fn put_u64(m: Mem, a: int, v: u64) -> (Mem, bool) {
    put(m, a, spec_u64_to_le_bytes(v))
}

pub open spec fn u32_or_zero(m: Mem, a: int) -> u32 {
    match load_u32(m, a) {
        Some(v) => v,
        None => 0,
    }
}

pub open spec fn u64_or_zero(m: Mem, a: int) -> u64 {
    match load_u64(m, a) {
        Some(v) => v,
        None => 0,
    }
}

/// The `n` DWORDs at `a`, or `None` when one of them is unmapped.
pub open spec fn load_words(m: Mem, a: int, n: nat) -> Option<Seq<u32>> {
    if mapped(m, a, 4 * n) {
        Some(Seq::new(n, |i: int| load_u32(m, a + 4 * i)->0))
    } else {
        None
    }
}

/// The bytes of DWORDs in memory.
pub open spec fn bytes_of(words: Seq<u32>) -> Seq<u8> {
    Seq::new(4 * words.len(), |i: int| spec_u32_to_le_bytes(words[i / 4])[i % 4])
}

/// A write never changes what is mapped.
pub proof fn law_put_keeps_mapping(m: Mem, a: int, b: Seq<u8>)
    ensures
        put(m, a, b).0.dom() == m.dom(),
        put(m, a, b).1 == mapped(m, a, b.len()),
{
    assert(put(m, a, b).0.dom() =~= m.dom());
}

/// What was written is read back.
pub proof fn law_read_back(m: Mem, a: int, b: Seq<u8>)
    requires
        put(m, a, b).1,
    ensures
        load(put(m, a, b).0, a, b.len()) == Some(b),
{
    let after = put(m, a, b).0;
    assert forall|i: int| a <= i < a + b.len() implies #[trigger] after.dom().contains(i) by {
        assert(m.dom().contains(i));
    }
    assert(load(after, a, b.len())->0 =~= b);
}

/// A 32-bit value that was written is read back.
pub proof fn law_read_back_u32(m: Mem, a: int, v: u32)
    requires
        put_u32(m, a, v).1,
    ensures
        load_u32(put_u32(m, a, v).0, a) == Some(v),
{
    lemma_auto_spec_u32_to_from_le_bytes();
    law_read_back(m, a, spec_u32_to_le_bytes(v));
}

/// DWORDs that were written as bytes are read back.
pub proof fn law_words_read_back(m: Mem, a: int, words: Seq<u32>)
    requires
        put(m, a, bytes_of(words)).1,
    ensures
        load_words(put(m, a, bytes_of(words)).0, a, words.len()) == Some(words),
{
    let after = put(m, a, bytes_of(words)).0;
    lemma_auto_spec_u32_to_from_le_bytes();
    law_put_keeps_mapping(m, a, bytes_of(words));
    assert forall|i: int| a <= i < a + 4 * words.len() implies #[trigger] after.dom().contains(i) by {
        assert(m.dom().contains(i));
    }
    assert forall|i: int| 0 <= i < words.len() implies #[trigger] load_u32(after, a + 4 * i)->0
        == words[i] by {
        let b = spec_u32_to_le_bytes(words[i]);
        let at = a + 4 * i;
        assert forall|x: int| at <= x < at + 4 implies #[trigger] after.dom().contains(x) by {}
        assert(Seq::new(4, |k: int| after[at + k]) =~= b) by {
            assert forall|k: int| 0 <= k < 4 implies after[#[trigger] (at + k)] == b[k] by {
                assert((4 * i + k) / 4 == i && (4 * i + k) % 4 == k);
                assert(bytes_of(words)[4 * i + k] == b[k]);
            }
        }
    }
    assert(load_words(after, a, words.len())->0 =~= words);
}

/// A 64-bit value that was written is read back.
pub proof fn law_read_back_u64(m: Mem, a: int, v: u64)
    requires
        put_u64(m, a, v).1,
    ensures
        load_u64(put_u64(m, a, v).0, a) == Some(v),
{
    lemma_auto_spec_u64_to_from_le_bytes();
    law_read_back(m, a, spec_u64_to_le_bytes(v));
}

/// A write leaves every other range as it was.
pub proof fn law_read_elsewhere(m: Mem, a: int, b: Seq<u8>, x: int, n: nat)
    requires
        x + n <= a || a + b.len() <= x,
    ensures
        load(put(m, a, b).0, x, n) == load(m, x, n),
{
    let after = put(m, a, b).0;
    law_put_keeps_mapping(m, a, b);
    assert(mapped(after, x, n) == mapped(m, x, n)) by {
        if mapped(m, x, n) {
            assert forall|i: int| x <= i < x + n implies #[trigger] after.dom().contains(i) by {
                assert(m.dom().contains(i));
            }
        }
        if mapped(after, x, n) {
            assert forall|i: int| x <= i < x + n implies #[trigger] m.dom().contains(i) by {
                assert(after.dom().contains(i));
            }
        }
    }
    if mapped(m, x, n) {
        assert forall|k: int| x <= k < x + n implies #[trigger] after[k] == m[k] by {
            assert(m.dom().contains(k));
        }
        assert(load(after, x, n)->0 =~= load(m, x, n)->0);
    }
}

/// One mapped region.
pub struct Region {
    base: u64,
    bytes: Vec<u8>,
}

impl Region {
    spec fn has(self, a: int) -> bool {
        self.base <= a < self.base + self.bytes@.len() && a <= u64::MAX
    }
}

/// The index of the first region that holds `a`, or the number of regions.
spec fn first_region(rs: Seq<Region>, a: int) -> int
    decreases rs.len(),
{
    if rs.len() == 0 {
        0
    } else if rs[0].has(a) {
        0
    } else {
        1 + first_region(rs.drop_first(), a)
    }
}

proof fn lemma_first_region(rs: Seq<Region>, a: int, i: int)
    requires
        0 <= i <= rs.len(),
        forall|j: int| 0 <= j < i ==> !(#[trigger] rs[j]).has(a),
        i < rs.len() ==> rs[i].has(a),
    ensures
        first_region(rs, a) == i,
    decreases rs.len(),
{
    if rs.len() > 0 && i > 0 {
        assert(!rs[0].has(a));
        let tail = rs.drop_first();
        assert forall|j: int| 0 <= j < i - 1 implies !(#[trigger] tail[j]).has(a) by {
            assert(tail[j] == rs[j + 1]);
        }
        if i < rs.len() {
            assert(tail[i - 1] == rs[i]);
        }
        lemma_first_region(tail, a, i - 1);
    }
}

/// Regions with the same bounds are searched alike.
proof fn lemma_first_region_same(rs: Seq<Region>, qs: Seq<Region>, a: int)
    requires
        rs.len() == qs.len(),
        forall|j: int| 0 <= j < rs.len() ==> (#[trigger] rs[j]).has(a) == qs[j].has(a),
    ensures
        first_region(rs, a) == first_region(qs, a),
        0 <= first_region(rs, a) <= rs.len(),
        first_region(rs, a) < rs.len() ==> rs[first_region(rs, a)].has(a),
    decreases rs.len(),
{
    if rs.len() > 0 {
        assert(rs[0].has(a) == qs[0].has(a));
        let t = rs.drop_first();
        let u = qs.drop_first();
        assert forall|j: int| 0 <= j < t.len() implies (#[trigger] t[j]).has(a) == u[j].has(a) by {
            assert(t[j] == rs[j + 1]);
            assert(u[j] == qs[j + 1]);
        }
        lemma_first_region_same(t, u, a);
        if !rs[0].has(a) && first_region(rs, a) < rs.len() {
            assert(t[first_region(t, a)] == rs[first_region(rs, a)]);
        }
    }
}

/// The memory a guest process sees.
pub struct GuestMemory {
    regions: Vec<Region>,
}

impl View for GuestMemory {
    type V = Mem;

    closed spec fn view(&self) -> Mem {
        let rs = self.regions@;
        Map::new(
            |a: int| first_region(rs, a) < rs.len(),
            |a: int| rs[first_region(rs, a)].bytes@[a - rs[first_region(rs, a)].base],
        )
    }
}

impl GuestMemory {
    /// Only 64-bit addresses are ever mapped.
    pub proof fn lemma_addresses(&self)
        ensures
            forall|a: int| #[trigger] self@.dom().contains(a) ==> 0 <= a <= u64::MAX,
    {
        let rs = self.regions@;
        assert forall|a: int| #[trigger] self@.dom().contains(a) implies 0 <= a <= u64::MAX by {
            lemma_first_region_same(rs, rs, a);
        }
    }

    /// A memory with nothing mapped.
    pub fn empty() -> (r: GuestMemory)
        ensures
            r@ == Map::<int, u8>::empty(),
    {
        let r = GuestMemory { regions: Vec::new() };
        assert(r@ =~= Map::<int, u8>::empty());
        r
    }

    /// Map `size` zero bytes at `base`. Addresses that were mapped before keep
    /// their bytes.
    pub fn map_region(&mut self, base: u64, size: usize)
        ensures
            forall|a: int| #[trigger]
                final(self)@.dom().contains(a) <==> old(self)@.dom().contains(a) || (base <= a < base
                    + size && a <= u64::MAX),
            forall|a: int|
                old(self)@.dom().contains(a) ==> #[trigger] final(self)@[a] == old(self)@[a],
            forall|a: int|
                final(self)@.dom().contains(a) && !old(self)@.dom().contains(a)
                    ==> #[trigger] final(self)@[a] == 0,
    {
        let ghost before = self.regions@;
        let mut bytes: Vec<u8> = Vec::new();
        let mut i: usize = 0;
        while i < size
            invariant
                i <= size,
                bytes@.len() == i,
                forall|j: int| 0 <= j < i ==> bytes@[j] == 0,
            decreases size - i,
        {
            bytes.push(0);
            i += 1;
        }
        let ghost added = Region { base, bytes };
        self.regions.push(Region { base, bytes });
        proof {
            let rs = self.regions@;
            let n = before.len() as int;
            assert forall|a: int| true implies {
                let f = #[trigger] first_region(before, a);
                &&& 0 <= f <= n
                &&& f < n ==> first_region(rs, a) == f && rs[f] == before[f]
                &&& f == n ==> first_region(rs, a) == (if rs[n].has(a) {
                    n
                } else {
                    n + 1
                })
            } by {
                lemma_first_region_same(before, before, a);
                lemma_push(before, rs[n], a);
                assert(rs =~= before.push(rs[n]));
            }
        }
    }

    /// The region holding `addr`, if any.
    fn locate(&self, addr: u64) -> (r: Option<usize>)
        ensures
            r is Some <==> self@.dom().contains(addr as int),
            r is Some ==> r->0 < self.regions@.len() && self.regions@[r->0 as int].has(addr as int)
                && first_region(self.regions@, addr as int) == r->0,
    {
        let mut i: usize = 0;
        while i < self.regions.len()
            invariant
                i <= self.regions@.len(),
                forall|j: int| 0 <= j < i ==> !(#[trigger] self.regions@[j]).has(addr as int),
            decreases self.regions@.len() - i,
        {
            let r = &self.regions[i];
            if r.base <= addr && addr - r.base < r.bytes.len() as u64 {
                proof {
                    lemma_first_region(self.regions@, addr as int, i as int);
                }
                return Some(i);
            }
            i += 1;
        }
        proof {
            lemma_first_region(self.regions@, addr as int, i as int);
        }
        None
    }

    /// The byte at `addr`.
    fn get(&self, addr: u64) -> (r: Option<u8>)
        ensures
            r == (if self@.dom().contains(addr as int) {
                Some(self@[addr as int])
            } else {
                None
            }),
    {
        match self.locate(addr) {
            Some(i) => {
                let base: u64 = self.regions[i].base;
                assert(self.regions@[i as int].bytes.len() <= usize::MAX);
                Some(self.regions[i].bytes[(addr - base) as usize])
            },
            None => None,
        }
    }

    /// Overwrite the mapped byte at `addr`.
    fn set(&mut self, addr: u64, value: u8)
        requires
            old(self)@.dom().contains(addr as int),
        ensures
            final(self)@ == store(old(self)@, addr as int, seq![value]),
    {
        let ghost before = self.regions@;
        match self.locate(addr) {
            Some(i) => {
                let base: u64 = self.regions[i].base;
                assert(self.regions@[i as int].bytes.len() <= usize::MAX);
                self.regions[i].bytes[(addr - base) as usize] = value;
                proof {
                    let rs = self.regions@;
                    assert(forall|k: int|
                        0 <= k < rs.len() ==> (#[trigger] rs[k]).base == before[k].base
                            && rs[k].bytes@.len() == before[k].bytes@.len());
                    assert forall|a: int| true implies first_region(rs, a) == #[trigger] first_region(
                        before,
                        a,
                    ) && 0 <= first_region(rs, a) <= rs.len() && (first_region(rs, a) < rs.len()
                        ==> before[first_region(rs, a)].has(a)) by {
                        lemma_first_region_same(before, rs, a);
                    }
                    let j = addr - base;
                    assert(rs[i as int].bytes@ == before[i as int].bytes@.update(j, value));
                    assert(forall|k: int|
                        0 <= k < rs.len() && k != i ==> #[trigger] rs[k] == before[k]);
                    assert(self@.dom() =~= old(self)@.dom());
                    assert(self@ =~= store(old(self)@, addr as int, seq![value]));
                }
            },
            None => {},
        }
    }

    /// Whether `n` bytes at `base + off` are all mapped.
    fn is_mapped(&self, base: u64, off: u64, n: usize) -> (r: bool)
        ensures
            r == mapped(self@, base + off, n as nat),
    {
        let mut i: usize = 0;
        let start = base.checked_add(off);
        proof {
            self.lemma_addresses();
        }
        while i < n
            invariant
                i <= n,
                forall|a: int| #[trigger] self@.dom().contains(a) ==> 0 <= a <= u64::MAX,
                start == (if base + off > u64::MAX {
                    None
                } else {
                    Some((base + off) as u64)
                }),
                forall|k: int|
                    base + off <= k < base + off + i ==> #[trigger] self@.dom().contains(k),
            decreases n - i,
        {
            let addr = match start {
                Some(s) => s.checked_add(i as u64),
                None => None,
            };
            match addr {
                Some(a) => {
                    if self.get(a).is_none() {
                        assert(!self@.dom().contains(base + off + i));
                        return false;
                    }
                },
                None => {
                    assert(!self@.dom().contains(base + off + i));
                    return false;
                },
            }
            i += 1;
        }
        true
    }

    /// Read `n` bytes at `base + off`; `None` when one of them is unmapped.
    pub fn read(&self, base: u64, off: u64, n: usize) -> (r: Option<Vec<u8>>)
        ensures
            r is Some <==> load(self@, base + off, n as nat) is Some,
            r is Some ==> r->0@ == load(self@, base + off, n as nat)->0,
    {
        if !self.is_mapped(base, off, n) {
            return None;
        }
        let mut out: Vec<u8> = Vec::new();
        let mut i: usize = 0;
        while i < n
            invariant
                i <= n,
                mapped(self@, base + off, n as nat),
                out@.len() == i,
                forall|k: int| 0 <= k < i ==> #[trigger] out@[k] == self@[base + off + k],
            decreases n - i,
        {
            assert(self@.dom().contains(base + off + i));
            proof {
                self.lemma_addresses();
            }
            let a: u64 = base + off + i as u64;
            match self.get(a) {
                Some(b) => out.push(b),
                None => {},
            }
            i += 1;
        }
        assert(out@ =~= load(self@, base + off, n as nat)->0);
        Some(out)
    }

    /// Write `data` at `base + off`, all or nothing.
    pub fn write(&mut self, base: u64, off: u64, data: &[u8]) -> (ok: bool)
        ensures
            final(self)@ == put(old(self)@, base + off, data@).0,
            ok == put(old(self)@, base + off, data@).1,
    {
        if !self.is_mapped(base, off, data.len()) {
            return false;
        }
        let mut i: usize = 0;
        let ghost before = self@;
        assert(self@ =~= store(before, base + off, data@.take(0)));
        while i < data.len()
            invariant
                i <= data@.len(),
                before == old(self)@,
                mapped(before, base + off, data@.len()),
                self@ == store(before, base + off, data@.take(i as int)),
            decreases data@.len() - i,
        {
            assert(before.dom().contains(base + off + i));
            assert(self@.dom().contains(base + off + i));
            proof {
                self.lemma_addresses();
            }
            let a: u64 = base + off + i as u64;
            self.set(a, data[i]);
            proof {
                assert(self@ =~= store(before, base + off, data@.take(i + 1)));
            }
            i += 1;
        }
        assert(data@.take(i as int) =~= data@);
        true
    }
}

impl GuestMemory {
    /// The byte at `base + off`.
    pub fn read_u8(&self, base: u64, off: u64) -> (r: Option<u8>)
        ensures
            r == load_u8(self@, base + off),
    {
        match self.read(base, off, 1) {
            Some(b) => Some(b[0]),
            None => None,
        }
    }

    /// The little-endian 16-bit value at `base + off`.
    pub fn read_u16(&self, base: u64, off: u64) -> (r: Option<u16>)
        ensures
            r == load_u16(self@, base + off),
    {
        match self.read(base, off, 2) {
            Some(b) => Some(u16_from_le_bytes(b.as_slice())),
            None => None,
        }
    }

    /// The little-endian 32-bit value at `base + off`.
    pub fn read_u32(&self, base: u64, off: u64) -> (r: Option<u32>)
        ensures
            r == load_u32(self@, base + off),
    {
        match self.read(base, off, 4) {
            Some(b) => Some(u32_from_le_bytes(b.as_slice())),
            None => None,
        }
    }

    /// The little-endian 64-bit value at `base + off`.
    pub fn read_u64(&self, base: u64, off: u64) -> (r: Option<u64>)
        ensures
            r == load_u64(self@, base + off),
    {
        match self.read(base, off, 8) {
            Some(b) => Some(u64_from_le_bytes(b.as_slice())),
            None => None,
        }
    }

    /// The `n` DWORDs at `base + off`; `None` when one of them is unmapped.
    pub fn read_words(&self, base: u64, off: u64, n: usize) -> (r: Option<Vec<u32>>)
        requires
            off + 4 * n <= u64::MAX,
        ensures
            r is Some == load_words(self@, base + off, n as nat) is Some,
            r is Some ==> r->0@ == load_words(self@, base + off, n as nat)->0,
    {
        let ghost a = base + off;
        let mut out: Vec<u32> = Vec::new();
        let mut i: usize = 0;
        while i < n
            invariant
                i <= n,
                a == base + off,
                off + 4 * n <= u64::MAX,
                out@.len() == i,
                mapped(self@, a, 4 * i as nat),
                forall|j: int| 0 <= j < i ==> #[trigger] out@[j] == load_u32(self@, a + 4 * j)->0,
            decreases n - i,
        {
            match self.read_u32(base, off + 4 * (i as u64)) {
                Some(v) => {
                    assert(mapped(self@, a + 4 * i, 4));
                    assert forall|k: int| a <= k < a + 4 * (i + 1) implies #[trigger] self@.dom().contains(
                        k,
                    ) by {
                        if k < a + 4 * i {
                        } else {
                            assert(a + 4 * i <= k < a + 4 * i + 4);
                        }
                    }
                    out.push(v);
                },
                None => {
                    proof {
                        if mapped(self@, a, 4 * n as nat) {
                            assert(mapped(self@, a + 4 * i, 4));
                        }
                    }
                    return None;
                },
            }
            i += 1;
        }
        assert(out@ =~= load_words(self@, a, n as nat)->0);
        Some(out)
    }

    /// Write a little-endian 32-bit value at `base + off`.
    pub fn write_u32(&mut self, base: u64, off: u64, value: u32) -> (ok: bool)
        ensures
            final(self)@ == put_u32(old(self)@, base + off, value).0,
            ok == put_u32(old(self)@, base + off, value).1,
    {
        let b = u32_to_le_bytes(value);
        self.write(base, off, b.as_slice())
    }

    /// Write a little-endian 64-bit value at `base + off`.
    pub fn write_u64(&mut self, base: u64, off: u64, value: u64) -> (ok: bool)
        ensures
            final(self)@ == put_u64(old(self)@, base + off, value).0,
            ok == put_u64(old(self)@, base + off, value).1,
    {
        let b = u64_to_le_bytes(value);
        self.write(base, off, b.as_slice())
    }

    /// The 32-bit value at `base + off`, or zero when it is unmapped.
    pub fn read_u32_or_zero(&self, base: u64, off: u64) -> (r: u32)
        ensures
            r == u32_or_zero(self@, base + off),
    {
        match self.read_u32(base, off) {
            Some(v) => v,
            None => 0,
        }
    }

    /// The 64-bit value at `base + off`, or zero when it is unmapped.
    pub fn read_u64_or_zero(&self, base: u64, off: u64) -> (r: u64)
        ensures
            r == u64_or_zero(self@, base + off),
    {
        match self.read_u64(base, off) {
            Some(v) => v,
            None => 0,
        }
    }
}

proof fn lemma_push(rs: Seq<Region>, r: Region, a: int)
    ensures
        first_region(rs, a) < rs.len() ==> first_region(rs.push(r), a) == first_region(rs, a),
        first_region(rs, a) >= rs.len() ==> first_region(rs.push(r), a) == (if r.has(a) {
            rs.len() as int
        } else {
            rs.len() as int + 1
        }),
    decreases rs.len(),
{
    if rs.len() == 0 {
        reveal_with_fuel(first_region, 3);
        assert(rs.push(r).drop_first() =~= Seq::<Region>::empty());
    } else {
        assert(rs.push(r).drop_first() =~= rs.drop_first().push(r));
        assert(rs.push(r)[0] == rs[0]);
        lemma_push(rs.drop_first(), r, a);
    }
}

/// The bytes of `words`.
pub fn to_bytes(words: &[u32]) -> (r: Vec<u8>)
    ensures
        r@ == bytes_of(words@),
{
    let mut out: Vec<u8> = Vec::new();
    let mut i: usize = 0;
    while i < words.len()
        invariant
            i <= words@.len(),
            out@.len() == 4 * i,
            forall|j: int|
                0 <= j < 4 * i ==> #[trigger] out@[j] == spec_u32_to_le_bytes(words@[j / 4])[j % 4],
        decreases words@.len() - i,
    {
        let b = u32_to_le_bytes(words[i]);
        proof {
            lemma_auto_spec_u32_to_from_le_bytes();
        }
        out.push(b[0]);
        out.push(b[1]);
        out.push(b[2]);
        out.push(b[3]);
        i += 1;
    }
    assert(out@ =~= bytes_of(words@));
    out
}

} // verus!
