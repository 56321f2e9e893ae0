//! What an initialised fiber holds in memory.
use vstd::prelude::*;
use crate::agc::effects::{
    apart, changed_only, kept, lemma_kept_reads, lemma_put_keeps, lemma_put_u32_keeps_rest,
    lemma_put_u64_keeps_rest,
};
use crate::agc::fields::{lemma_put_u32_keeps, lemma_put_u64_keeps};
use crate::context::{arg, Machine};
use crate::libsce_fiber::{effect, fiber_guard, fiber_head, fiber_tail, name_field, FiberExport};
use crate::mem::{
    law_put_keeps_mapping, law_read_back, law_read_back_u32, law_read_back_u64, load, load_u32,
    load_u64, mapped, put, put_u32, put_u64, Mem,
};
use crate::registry::Reply;

verus! {

/// The machine behind a call of an export, and the value that the call returns.
pub open spec fn returned(e: FiberExport, m: Machine, a: Seq<u64>) -> (Machine, u64) {
    let (after, reply) = effect(e, m, a);
    (after, reply->Return_0)
}

proof fn lemma_part(m: Mem, a: int, n: nat, x: int, k: nat)
    requires
        mapped(m, a, n),
        a <= x,
        x + k <= a + n,
    ensures
        mapped(m, x, k),
{
    assert forall|y: int| x <= y < x + k implies #[trigger] m.dom().contains(y) by {}
}

/// The first 0x28 bytes of a fiber: its mark, its state, and the whole entry point,
/// argument, stack and stack size that it was made with.
proof fn lemma_head(m: Mem, a: Seq<u64>)
    requires
        mapped(m, arg(a, 0) as int, 0x6C),
    ensures
        ({
            let f = arg(a, 0) as int;
            let after = fiber_head(m, a);
            &&& load_u32(after, f) == Some(0xDEF1_649Cu32)
            &&& load_u32(after, f + 4) == Some(2u32)
            &&& load_u64(after, f + 0x08) == Some(arg(a, 2))
            &&& load_u64(after, f + 0x10) == Some(arg(a, 3))
            &&& load_u64(after, f + 0x18) == Some(arg(a, 4))
            &&& load_u64(after, f + 0x20) == Some(arg(a, 5))
            &&& after.dom() == m.dom()
            &&& changed_only(m, after, f, 0x28)
        }),
{
    let f = arg(a, 0) as int;
    let m1 = put_u32(m, f, 0xDEF1_649C).0;
    let m2 = put_u32(m1, f + 4, 2).0;
    let m3 = put_u64(m2, f + 0x08, arg(a, 2)).0;
    let m4 = put_u64(m3, f + 0x10, arg(a, 3)).0;
    let m5 = put_u64(m4, f + 0x18, arg(a, 4)).0;
    let m6 = put_u64(m5, f + 0x20, arg(a, 5)).0;
    lemma_put_u32_keeps(m, f, 0xDEF1_649C, f, 0x6C);
    lemma_put_u32_keeps(m1, f + 4, 2, f, 0x6C);
    lemma_put_u64_keeps(m2, f + 0x08, arg(a, 2), f, 0x6C);
    lemma_put_u64_keeps(m3, f + 0x10, arg(a, 3), f, 0x6C);
    lemma_put_u64_keeps(m4, f + 0x18, arg(a, 4), f, 0x6C);
    lemma_part(m, f, 0x6C, f, 4);
    lemma_part(m1, f, 0x6C, f + 4, 4);
    lemma_part(m2, f, 0x6C, f + 0x08, 8);
    lemma_part(m3, f, 0x6C, f + 0x10, 8);
    lemma_part(m4, f, 0x6C, f + 0x18, 8);
    lemma_part(m5, f, 0x6C, f + 0x20, 8);
    lemma_put_u64_keeps(m5, f + 0x20, arg(a, 5), f, 0x6C);
    law_read_back_u32(m, f, 0xDEF1_649C);
    law_read_back_u32(m1, f + 4, 2);
    law_read_back_u64(m2, f + 0x08, arg(a, 2));
    law_read_back_u64(m3, f + 0x10, arg(a, 3));
    law_read_back_u64(m4, f + 0x18, arg(a, 4));
    law_read_back_u64(m5, f + 0x20, arg(a, 5));
    lemma_put_u32_keeps_rest(m1, f + 4, 2, f, 4);
    lemma_put_u64_keeps_rest(m2, f + 0x08, arg(a, 2), f, 8);
    lemma_put_u64_keeps_rest(m3, f + 0x10, arg(a, 3), f, 0x10);
    lemma_put_u64_keeps_rest(m4, f + 0x18, arg(a, 4), f, 0x18);
    lemma_put_u64_keeps_rest(m5, f + 0x20, arg(a, 5), f, 0x20);
    assert(kept(m1, m6, f, 4));
    assert(kept(m2, m6, f, 8));
    assert(kept(m3, m6, f, 0x10));
    assert(kept(m4, m6, f, 0x18));
    lemma_kept_reads(m1, m6, f, 4, f, 4);
    lemma_kept_reads(m2, m6, f, 8, f + 4, 4);
    lemma_kept_reads(m3, m6, f, 0x10, f + 0x08, 8);
    lemma_kept_reads(m4, m6, f, 0x18, f + 0x10, 8);
    lemma_kept_reads(m5, m6, f, 0x20, f + 0x18, 8);
    assert forall|x: int| m.dom().contains(x) && !(f <= x < f + 0x28) implies #[trigger] m6[x]
        == m[x] by {
        lemma_put_u32_keeps_rest(m, f, 0xDEF1_649C, x, 1);
        lemma_put_u32_keeps_rest(m1, f + 4, 2, x, 1);
        lemma_put_u64_keeps_rest(m2, f + 0x08, arg(a, 2), x, 1);
        lemma_put_u64_keeps_rest(m3, f + 0x10, arg(a, 3), x, 1);
        lemma_put_u64_keeps_rest(m4, f + 0x18, arg(a, 4), x, 1);
        lemma_put_u64_keeps_rest(m5, f + 0x20, arg(a, 5), x, 1);
        assert(m1[x] == m[x] && m2[x] == m1[x] && m3[x] == m2[x] && m4[x] == m3[x] && m5[x]
            == m4[x]);
    }
}

/// The rest of a fiber: its name at 0x28, if it has one, a zero at 0x50, and its end
/// mark at 0x68.
proof fn lemma_tail(m: Mem, a: Seq<u64>)
    requires
        mapped(m, arg(a, 0) as int, 0x6C),
    ensures
        ({
            let f = arg(a, 0) as int;
            let after = fiber_tail(m, a);
            &&& load_u32(after, f + 0x50) == Some(0u32)
            &&& load_u32(after, f + 0x68) == Some(0xB375_92A0u32)
            &&& arg(a, 1) != 0 ==> load(after, f + 0x28, 32) == Some(name_field(m, arg(a, 1)))
            &&& kept(m, after, f, 0x28)
            &&& after.dom() == m.dom()
        }),
{
    let f = arg(a, 0) as int;
    let name = name_field(m, arg(a, 1));
    assert(name.len() == 32);
    let m1 = if arg(a, 1) != 0 {
        put(m, f + 0x28, name).0
    } else {
        m
    };
    let m2 = put_u32(m1, f + 0x50, 0).0;
    let m3 = put_u32(m2, f + 0x68, 0xB375_92A0).0;
    law_put_keeps_mapping(m, f + 0x28, name);
    lemma_part(m, f, 0x6C, f + 0x28, 32);
    lemma_part(m1, f, 0x6C, f + 0x50, 4);
    lemma_put_u32_keeps(m1, f + 0x50, 0, f, 0x6C);
    lemma_part(m2, f, 0x6C, f + 0x68, 4);
    lemma_put_u32_keeps(m2, f + 0x68, 0xB375_92A0, f, 0x6C);
    law_read_back_u32(m1, f + 0x50, 0);
    law_read_back_u32(m2, f + 0x68, 0xB375_92A0);
    lemma_put_u32_keeps_rest(m2, f + 0x68, 0xB375_92A0, f, 0x68);
    lemma_kept_reads(m2, m3, f, 0x68, f + 0x50, 4);
    lemma_put_u32_keeps_rest(m1, f + 0x50, 0, f, 0x48);
    if arg(a, 1) != 0 {
        law_read_back(m, f + 0x28, name);
        lemma_kept_reads(m1, m2, f, 0x48, f + 0x28, 32);
        lemma_kept_reads(m2, m3, f, 0x68, f + 0x28, 32);
        lemma_put_keeps(m, f + 0x28, name, f, 0x28);
    }
    assert(kept(m, m1, f, 0x28));
    assert(kept(m1, m2, f, 0x28));
    assert(kept(m2, m3, f, 0x28));
}

/// A fiber that is initialised holds its marks, is idle, and holds the whole entry
/// point, argument, stack and stack size that it was made with; its name is the
/// first 31 bytes of the text; and a stack of at least eight bytes is guarded at its
/// bottom. (The fiber is mapped, and apart from its stack's bottom; its name is apart
/// from it.)
pub proof fn law_initialized_fiber(m: Machine, a: Seq<u64>)
    requires
        arg(a, 0) != 0,
        mapped(m.mem, arg(a, 0) as int, 0x6C),
        arg(a, 4) != 0 && arg(a, 5) >= 8 ==> apart(arg(a, 4) as int, 8, arg(a, 0) as int, 0x6C)
            && mapped(m.mem, arg(a, 4) as int, 8),
        arg(a, 1) != 0 ==> apart(arg(a, 1) as int, 31, arg(a, 0) as int, 0x28) && mapped(
            m.mem,
            arg(a, 1) as int,
            31,
        ),
    ensures
        ({
            let (after, code) = returned(FiberExport::FiberInitialize, m, a);
            let f = arg(a, 0) as int;
            &&& code == 0
            &&& load_u32(after.mem, f) == Some(0xDEF1_649Cu32)
            &&& load_u32(after.mem, f + 4) == Some(2u32)
            &&& load_u64(after.mem, f + 0x08) == Some(arg(a, 2))
            &&& load_u64(after.mem, f + 0x10) == Some(arg(a, 3))
            &&& load_u64(after.mem, f + 0x18) == Some(arg(a, 4))
            &&& load_u64(after.mem, f + 0x20) == Some(arg(a, 5))
            &&& load_u32(after.mem, f + 0x50) == Some(0u32)
            &&& load_u32(after.mem, f + 0x68) == Some(0xB375_92A0u32)
            &&& arg(a, 1) != 0 ==> {
                &&& load(after.mem, f + 0x28, 31) == load(m.mem, arg(a, 1) as int, 31)
                &&& after.mem[f + 0x47] == 0
            }
            &&& arg(a, 4) != 0 && arg(a, 5) >= 8 ==> load_u64(after.mem, arg(a, 4) as int) == Some(
                0x7149_F2CA_7149_F2CAu64,
            )
        }),
{
    let f = arg(a, 0) as int;
    let name = arg(a, 1) as int;
    let head = fiber_head(m.mem, a);
    let tail = fiber_tail(head, a);
    let after = fiber_guard(tail, a);
    lemma_head(m.mem, a);
    lemma_tail(head, a);
    let guard = arg(a, 4) as int;
    if arg(a, 4) != 0 && arg(a, 5) >= 8 {
        lemma_put_u64_keeps_rest(tail, guard, 0x7149_F2CA_7149_F2CA, f, 0x6C);
        lemma_put_u64_keeps(tail, guard, 0x7149_F2CA_7149_F2CA, f, 0x6C);
        assert(mapped(tail, guard, 8));
        law_read_back_u64(tail, guard, 0x7149_F2CA_7149_F2CA);
    }
    assert(kept(tail, after, f, 0x6C));
    assert(kept(head, tail, f, 0x28));
    assert(kept(head, after, f, 0x28));
    lemma_kept_reads(head, after, f, 0x28, f, 4);
    lemma_kept_reads(head, after, f, 0x28, f + 4, 4);
    lemma_kept_reads(head, after, f, 0x28, f + 0x08, 8);
    lemma_kept_reads(head, after, f, 0x28, f + 0x10, 8);
    lemma_kept_reads(head, after, f, 0x28, f + 0x18, 8);
    lemma_kept_reads(head, after, f, 0x28, f + 0x20, 8);
    lemma_kept_reads(tail, after, f, 0x6C, f + 0x50, 4);
    lemma_kept_reads(tail, after, f, 0x6C, f + 0x68, 4);
    if arg(a, 1) != 0 {
        assert(kept(m.mem, head, name, 31));
        lemma_kept_reads(m.mem, head, name, 31, name, 31);
        lemma_kept_reads(tail, after, f, 0x6C, f + 0x28, 32);
        let b = name_field(head, arg(a, 1));
        let whole = load(after, f + 0x28, 32)->0;
        assert(whole == b);
        assert(whole[31] == after[f + 0x28 + 31]);
        assert forall|x: int| f + 0x28 <= x < f + 0x47 implies #[trigger] after.dom().contains(
            x,
        ) by {
            assert(mapped(after, f + 0x28, 32));
        }
        assert(mapped(after, f + 0x28, 31));
        assert(load(after, f + 0x28, 31)->0 =~= load(m.mem, name, 31)->0) by {
            assert forall|i: int| 0 <= i < 31 implies #[trigger] load(after, f + 0x28, 31)->0[i]
                == load(m.mem, name, 31)->0[i] by {
                assert(whole[i] == after[f + 0x28 + i]);
                assert(b[i] == load(head, name, 31)->0[i]);
            }
        }
    }
}

/// The other calls: a null fiber, a fiber that is not idle, an option block that is
/// null or not aligned to eight bytes, and a size check that is not as it should be
/// are errors; a fiber that is finalised is terminated, and an option block that is
/// initialised is signed.
pub proof fn law_fiber_outcomes(m: Machine, a: Seq<u64>)
    ensures
        arg(a, 0) == 0 ==> returned(FiberExport::FiberInitialize, m, a) == (m, 0x8059_0001u64),
        ({
            let (after, r) = returned(FiberExport::FiberFinalize, m, a);
            let state = load_u32(m.mem, arg(a, 0) + 4);
            &&& arg(a, 0) == 0 ==> r == 0x8059_0001 && after == m
            &&& arg(a, 0) != 0 && state is Some && state != Some(2u32) ==> r == 0x8059_0006 && after
                == m
            &&& arg(a, 0) != 0 && state == Some(2u32) ==> {
                &&& r == 0
                &&& load_u32(after.mem, arg(a, 0) + 4) == Some(3u32)
                &&& !after.fibers.dom().contains(arg(a, 0))
            }
        }),
        ({
            let (after, r) = returned(FiberExport::OptParamInit, m, a);
            &&& arg(a, 0) == 0 ==> r == 0x8059_0001 && after == m
            &&& arg(a, 0) % 8 != 0 ==> r == 0x8059_0002 && after == m
            &&& arg(a, 0) != 0 && arg(a, 0) % 8 == 0 && mapped(m.mem, arg(a, 0) as int, 4) ==> {
                &&& r == 0
                &&& load_u32(after.mem, arg(a, 0) as int) == Some(0xBB40_E64Du32)
            }
        }),
        arg(a, 0) != 0 ==> returned(FiberExport::StartContextSizeCheck, m, a) == (m, 0x8059_0004u64),
        arg(a, 0) == 0 ==> returned(FiberExport::StartContextSizeCheck, m, a).1 == (
        if m.small.fiber_context_size_check == 0 {
            0u64
        } else {
            0x8059_0006
        }),
        arg(a, 0) == 0 ==> returned(FiberExport::StartContextSizeCheck, m, a).0.small.fiber_context_size_check == 1,
        returned(FiberExport::StopContextSizeCheck, m, a).1 == (if m.small.fiber_context_size_check == 1 {
            0u64
        } else {
            0x8059_0006
        }),
        returned(FiberExport::StopContextSizeCheck, m, a).0.small.fiber_context_size_check == 0,
{
    let f = arg(a, 0);
    if f != 0 && load_u32(m.mem, f + 4) == Some(2u32) {
        lemma_put_u32_keeps(m.mem, f + 4, 3, 0, 0);
        law_read_back_u32(m.mem, f + 4, 3);
    }
    if f != 0 && mapped(m.mem, f as int, 4) {
        lemma_put_u32_keeps(m.mem, f as int, 0xBB40_E64D, 0, 0);
        law_read_back_u32(m.mem, f as int, 0xBB40_E64D);
    }
}

/// What else the calls come to: options that cannot be written are refused, a fiber
/// whose state cannot be read is given up all the same, and a transfer is accepted.
pub proof fn law_other_fiber_outcomes(m: Machine, a: Seq<u64>, k: u64)
    ensures
        arg(a, 0) != 0 && !mapped(m.mem, arg(a, 0) as int, 4) ==> returned(
            FiberExport::OptParamInit,
            m,
            a,
        ) == (m, 0x8059_0002u64),
        ({
            let (after, r) = returned(FiberExport::FiberFinalize, m, a);
            &&& arg(a, 0) != 0 && load_u32(m.mem, arg(a, 0) + 4) is None ==> r == 0
                && !after.fibers.dom().contains(arg(a, 0)) && after.mem == m.mem
            &&& k != arg(a, 0) ==> after.fibers.dom().contains(k) == m.fibers.dom().contains(k)
        }),
        arg(a, 0) != 0 ==> returned(FiberExport::FiberInitialize, m, a).1 == 0,
        returned(FiberExport::FiberInitialize, m, a).0.fibers == m.fibers,
        effect(FiberExport::FiberTransferPlaceholder, m, a) == (m, Reply::Return(0)),
{
    lemma_put_u32_keeps(m.mem, arg(a, 0) as int, 0xBB40_E64D, 0, 0);
    lemma_put_u32_keeps(m.mem, arg(a, 0) + 4, 3, 0, 0);
}

} // verus!
