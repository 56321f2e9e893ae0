//! Builders whose packets carry data: strings, register values and copies out
//! of guest memory, and builders that make more than one packet.
use vstd::prelude::*;
use crate::agc::builders::{
    DRAW_AUTO_MODIFIER, WORKLOAD_ID_MAX, WORKLOAD_STREAM_MAX_ID, WORKLOAD_STREAM_MIN_ID,
};
use crate::agc::packet::{
    alloc_command_dwords, allocate, emit, emit_at, emit_packet, header, hi, hi32, lo, lo32, pm4,
    put_words, try_emit, write_words, IT_DRAW_INDEX_2, IT_INDEX_BASE, IT_INDEX_BUFFER_SIZE, IT_NOP,
    IT_SET_SH_REG, IT_SET_UCONFIG_REG, R_DMA_DATA, R_PUSH_MARKER, R_WRITE_DATA, R_ZERO,
};
use crate::context::{arg, get_arg, HleContext, Machine};
use crate::mem::{load_u32, put_u32, put_u64, Mem};
use crate::text::{cstring, read_guest_cstring};

verus! {

/// The longest marker string that a builder reads, in bytes.
pub const MARKER_MAX: usize = 4095;

/// The payload of the packet that announces a range of SH registers.
pub const SET_SH_RANGE_MARKER: u32 = 0x6875_000D;

/// The most workloads that one packet can activate.
pub const WORKLOAD_ACTIVE_COUNT_MAX: u64 = 63;

/// A NOP packet of the given length with a zero body.
pub open spec fn cb_nop(m: Machine, a: Seq<u64>) -> (Machine, u64) {
    let n = arg(a, 1);
    if n < 2 || n > 0x4001 {
        (m, 0)
    } else {
        emit(
            m,
            arg(a, 0),
            seq![header(n as u32, IT_NOP, R_ZERO)] + Seq::new((n - 1) as nat, |i: int| 0u32),
        )
    }
}

/// `sceAgcCbNop(cb, dwordCount)`.
pub fn hle_cb_nop(ctx: &mut HleContext, args: &[u64]) -> (r: u64)
    ensures
        final(ctx)@ == cb_nop(old(ctx)@, args@).0,
        r == cb_nop(old(ctx)@, args@).1,
{
    let n: u64 = get_arg(args, 1);
    if n < 2 || n > 0x4001 {
        return 0;
    }
    let mut words: Vec<u32> = Vec::new();
    words.push(pm4(n as u32, IT_NOP, R_ZERO));
    while (words.len() as u64) < n
        invariant
            2 <= n <= 0x4001,
            1 <= words@.len() <= n,
            words@ =~= seq![header(n as u32, IT_NOP, R_ZERO)] + Seq::new(
                (words@.len() - 1) as nat,
                |i: int| 0u32,
            ),
        decreases n - words@.len(),
    {
        words.push(0);
    }
    emit_packet(ctx, get_arg(args, 0), words.as_slice())
}

/// Byte `i` of a string, zero past its end.
pub open spec fn byte_at(s: Seq<u8>, i: int) -> u32 {
    if 0 <= i < s.len() {
        s[i] as u32
    } else {
        0
    }
}

/// Four bytes of a zero-padded string as a little-endian DWORD.
pub open spec fn packed(s: Seq<u8>, i: int) -> u32 {
    byte_at(s, i) | (byte_at(s, i + 1) << 8) | (byte_at(s, i + 2) << 16) | (byte_at(s, i + 3) << 24)
}

/// The DWORDs of a string's packed form: at least one zero byte follows it.
pub open spec fn packed_dwords(s: Seq<u8>) -> nat {
    (s.len() / 4 + 1) as nat
}

/// The words of a marker packet.
pub open spec fn marker_words(s: Seq<u8>, reg: u32) -> Seq<u32> {
    seq![header((packed_dwords(s) + 1) as u32, IT_NOP, reg)] + Seq::new(
        packed_dwords(s),
        |i: int| packed(s, 4 * i),
    )
}

/// A packet that carries the NUL-terminated string at argument 1.
pub open spec fn dcb_marker(m: Machine, a: Seq<u64>, reg: u32) -> (Machine, u64) {
    match cstring(m.mem, arg(a, 1) as int, MARKER_MAX as nat) {
        Some(s) => emit(m, arg(a, 0), marker_words(s, reg)),
        None => (m, 0),
    }
}

/// Byte `i` of a string, zero past its end.
fn string_byte(s: &[u8], i: usize) -> (r: u32)
    ensures
        r == byte_at(s@, i as int),
{
    if i < s.len() {
        s[i] as u32
    } else {
        0
    }
}

/// Build a marker packet with discriminator `reg`.
pub fn dcb_marker_run(ctx: &mut HleContext, args: &[u64], reg: u32) -> (r: u64)
    ensures
        final(ctx)@ == dcb_marker(old(ctx)@, args@, reg).0,
        r == dcb_marker(old(ctx)@, args@, reg).1,
{
    let s = match read_guest_cstring(&ctx.mem, get_arg(args, 1), MARKER_MAX) {
        Some(s) => s,
        None => {
            return 0;
        },
    };
    let n: usize = s.len() / 4 + 1;
    let mut words: Vec<u32> = Vec::new();
    words.push(pm4((n + 1) as u32, IT_NOP, reg));
    let mut i: usize = 0;
    while i < n
        invariant
            s@.len() <= MARKER_MAX,
            n == packed_dwords(s@),
            i <= n,
            words@ =~= seq![header((n + 1) as u32, IT_NOP, reg)] + Seq::new(
                i as nat,
                |j: int| packed(s@, 4 * j),
            ),
        decreases n - i,
    {
        let k: usize = 4 * i;
        let value: u32 = string_byte(s.as_slice(), k) | (string_byte(s.as_slice(), k + 1) << 8) | (
        string_byte(s.as_slice(), k + 2) << 16) | (string_byte(s.as_slice(), k + 3) << 24);
        words.push(value);
        i += 1;
    }
    emit_packet(ctx, get_arg(args, 0), words.as_slice())
}

/// `sceAgcDcbPushMarker(dcb, markerString)`: open a debug-marker scope.
pub fn hle_dcb_push_marker(ctx: &mut HleContext, args: &[u64]) -> (r: u64)
    ensures
        final(ctx)@ == dcb_marker(old(ctx)@, args@, R_PUSH_MARKER).0,
        r == dcb_marker(old(ctx)@, args@, R_PUSH_MARKER).1,
{
    dcb_marker_run(ctx, args, R_PUSH_MARKER)
}

/// `sceAgcDcbSetMarker(dcb, markerString)`: a one-shot annotation, kept as a
/// plain NOP so that it never unbalances the marker scopes.
pub fn hle_dcb_set_marker(ctx: &mut HleContext, args: &[u64]) -> (r: u64)
    ensures
        final(ctx)@ == dcb_marker(old(ctx)@, args@, R_ZERO).0,
        r == dcb_marker(old(ctx)@, args@, R_ZERO).1,
{
    dcb_marker_run(ctx, args, R_ZERO)
}

/// The index-base and index-count packets that precede an indexed draw.
pub open spec fn index_binding_words(address: u64, count: u32) -> Seq<u32> {
    seq![
        header(3, IT_INDEX_BASE, R_ZERO),
        lo(address),
        hi(address),
        header(2, IT_INDEX_BUFFER_SIZE, R_ZERO),
        count,
    ]
}

/// An indexed draw: the index binding, then the draw itself, as two
/// allocations. The result is the address of the binding.
pub open spec fn dcb_draw_index(m: Machine, a: Seq<u64>) -> (Machine, u64) {
    let count = lo(arg(a, 1));
    if arg(a, 3) != DRAW_AUTO_MODIFIER {
        (m, 0)
    } else {
        match emit_at(m, arg(a, 0), index_binding_words(arg(a, 2), count)) {
            (m1, None) => (m1, 0),
            (m1, Some(base)) => match emit_at(
                m1,
                arg(a, 0),
                seq![header(5, IT_DRAW_INDEX_2, R_ZERO), count, 0u32, 0u32, 0u32],
            ) {
                (m2, None) => (m2, 0),
                (m2, Some(_)) => (m2, base),
            },
        }
    }
}

/// `sceAgcDcbDrawIndex(dcb, indexCount, indexAddress, modifier)`.
pub fn hle_dcb_draw_index(ctx: &mut HleContext, args: &[u64]) -> (r: u64)
    ensures
        final(ctx)@ == dcb_draw_index(old(ctx)@, args@).0,
        r == dcb_draw_index(old(ctx)@, args@).1,
{
    let cb: u64 = get_arg(args, 0);
    let count: u32 = lo32(get_arg(args, 1));
    let address: u64 = get_arg(args, 2);
    if get_arg(args, 3) != DRAW_AUTO_MODIFIER {
        return 0;
    }
    let base: u64 = match try_emit(
        ctx,
        cb,
        &[
            pm4(3, IT_INDEX_BASE, R_ZERO),
            lo32(address),
            hi32(address),
            pm4(2, IT_INDEX_BUFFER_SIZE, R_ZERO),
            count,
        ],
    ) {
        Some(base) => base,
        None => {
            return 0;
        },
    };
    match try_emit(ctx, cb, &[pm4(5, IT_DRAW_INDEX_2, R_ZERO), count, 0, 0, 0]) {
        Some(_) => base,
        None => 0,
    }
}

/// A packet of `head`, two 64-bit fields and `tail`, written in that order.
pub open spec fn emit_with_quads(
    m: Machine,
    cb: u64,
    head: Seq<u32>,
    q0: u64,
    q1: u64,
    tail: Seq<u32>,
) -> (Machine, u64) {
    if cb == 0 {
        (m, 0)
    } else {
        match allocate(m, cb, (head.len() + 4 + tail.len()) as u64) {
            (m1, None) => (m1, 0),
            (m1, Some(at)) => {
                let (mem_a, ok_a) = write_words(m1.mem, at as int, head);
                if !ok_a {
                    (m1.with_mem(mem_a), 0)
                } else {
                    let (mem_b, ok_b) = put_u64(mem_a, at + 4 * head.len(), q0);
                    if !ok_b {
                        (m1.with_mem(mem_a), 0)
                    } else {
                        let (mem_c, ok_c) = put_u64(mem_b, at + 4 * head.len() + 8, q1);
                        if !ok_c {
                            (m1.with_mem(mem_b), 0)
                        } else {
                            let (mem_d, ok_d) = write_words(mem_c, at + 4 * head.len() + 16, tail);
                            (m1.with_mem(mem_d), if ok_d {
                                at
                            } else {
                                0
                            })
                        }
                    }
                }
            },
        }
    }
}

/// Build a packet of `head`, two 64-bit fields and `tail`.
pub(crate) fn emit_quad_packet(
    ctx: &mut HleContext,
    cb: u64,
    head: &[u32],
    q0: u64,
    q1: u64,
    tail: &[u32],
) -> (r: u64)
    requires
        head@.len() + tail@.len() <= 0x1000,
    ensures
        final(ctx)@ == emit_with_quads(old(ctx)@, cb, head@, q0, q1, tail@).0,
        r == emit_with_quads(old(ctx)@, cb, head@, q0, q1, tail@).1,
{
    if cb == 0 {
        return 0;
    }
    let n: u64 = head.len() as u64;
    let at: u64 = match alloc_command_dwords(ctx, cb, n + 4 + tail.len() as u64) {
        Some(at) => at,
        None => {
            return 0;
        },
    };
    if !put_words(ctx, at, 0, head) {
        return 0;
    }
    if !ctx.mem.write_u64(at, 4 * n, q0) {
        return 0;
    }
    if !ctx.mem.write_u64(at, 4 * n + 8, q1) {
        return 0;
    }
    if !put_words(ctx, at, 4 * n + 16, tail) {
        return 0;
    }
    at
}

/// Four byte-wide fields in one DWORD, the first lowest.
pub open spec fn bytes4(a: u64, b: u64, c: u64, d: u64) -> u32 {
    ((a & 0xFF) as u32) | (((b & 0xFF) as u32) << 8) | (((c & 0xFF) as u32) << 16) | (((d
        & 0xFF) as u32) << 24)
}

/// Pack four byte-wide fields.
pub fn pack_bytes4(a: u64, b: u64, c: u64, d: u64) -> (r: u32)
    ensures
        r == bytes4(a, b, c, d),
{
    ((a & 0xFF) as u32) | (((b & 0xFF) as u32) << 8) | (((c & 0xFF) as u32) << 16) | (((d
        & 0xFF) as u32) << 24)
}

/// A DMA packet of the graphics queue; the byte count is a non-zero multiple
/// of four.
pub open spec fn dcb_dma_data(m: Machine, a: Seq<u64>) -> (Machine, u64) {
    let byte_count = lo(arg(a, 8));
    if byte_count == 0 || byte_count & 3 != 0 {
        (m, 0)
    } else {
        emit_with_quads(
            m,
            arg(a, 0),
            seq![
                header(8, IT_NOP, R_DMA_DATA),
                bytes4(arg(a, 1), arg(a, 2), arg(a, 3), arg(a, 5)),
                bytes4(arg(a, 6), arg(a, 9), arg(a, 10), arg(a, 11)),
                byte_count,
            ],
            arg(a, 4),
            arg(a, 7),
            Seq::<u32>::empty(),
        )
    }
}

/// `sceAgcDcbDmaData(dcb, destination, destinationCachePolicy, source,
/// destinationAddress, sourceCachePolicy, control4, sourceAddress, byteCount,
/// control7, control8, control9)`.
pub fn hle_dcb_dma_data(ctx: &mut HleContext, args: &[u64]) -> (r: u64)
    ensures
        final(ctx)@ == dcb_dma_data(old(ctx)@, args@).0,
        r == dcb_dma_data(old(ctx)@, args@).1,
{
    let byte_count: u32 = lo32(get_arg(args, 8));
    if byte_count == 0 || byte_count & 3 != 0 {
        return 0;
    }
    let tail: Vec<u32> = Vec::new();
    emit_quad_packet(
        ctx,
        get_arg(args, 0),
        &[
            pm4(8, IT_NOP, R_DMA_DATA),
            pack_bytes4(get_arg(args, 1), get_arg(args, 2), get_arg(args, 3), get_arg(args, 5)),
            pack_bytes4(get_arg(args, 6), get_arg(args, 9), get_arg(args, 10), get_arg(args, 11)),
            byte_count,
        ],
        get_arg(args, 4),
        get_arg(args, 7),
        tail.as_slice(),
    )
}

/// The largest transfer of the compute queue's DMA packet, in bytes.
pub const ACB_DMA_MAX_BYTES: u32 = 0x1000_0000;

/// A DMA packet of the compute queue.
pub open spec fn acb_dma_data(m: Machine, a: Seq<u64>) -> (Machine, u64) {
    let byte_count = lo(arg(a, 7));
    if byte_count == 0 || byte_count > ACB_DMA_MAX_BYTES {
        (m, 0)
    } else {
        emit_with_quads(
            m,
            arg(a, 0),
            seq![header(7, IT_NOP, R_DMA_DATA)],
            arg(a, 3),
            arg(a, 6),
            seq![byte_count, ((arg(a, 1) & 0xFF) as u32) | (((arg(a, 2) & 0xFF) as u32) << 8)],
        )
    }
}

/// `sceAgcAcbDmaData(acb, sourceSelector, destinationSelector,
/// destinationAddress, .., .., sourceOrImmediate, byteCount)`.
pub fn hle_acb_dma_data(ctx: &mut HleContext, args: &[u64]) -> (r: u64)
    ensures
        final(ctx)@ == acb_dma_data(old(ctx)@, args@).0,
        r == acb_dma_data(old(ctx)@, args@).1,
{
    let byte_count: u32 = lo32(get_arg(args, 7));
    if byte_count == 0 || byte_count > ACB_DMA_MAX_BYTES {
        return 0;
    }
    let head: [u32; 1] = [pm4(7, IT_NOP, R_DMA_DATA)];
    assert(head@ =~= seq![header(7, IT_NOP, R_DMA_DATA)]);
    emit_quad_packet(
        ctx,
        get_arg(args, 0),
        &head,
        get_arg(args, 3),
        get_arg(args, 6),
        &[
            byte_count,
            ((get_arg(args, 1) & 0xFF) as u32) | (((get_arg(args, 2) & 0xFF) as u32) << 8),
        ],
    )
}

/// The DWORD that a copy takes from `src + 4 * i`: zero for a null source; for
/// an unreadable one zero if the copy is lenient, and nothing if it is strict.
pub open spec fn copied(m: Mem, src: u64, i: int, lenient: bool) -> Option<u32> {
    if src == 0 {
        Some(0)
    } else {
        match load_u32(m, src + 4 * i) {
            Some(v) => Some(v),
            None => if lenient {
                Some(0)
            } else {
                None
            },
        }
    }
}

/// Memory after copying `n` DWORDs from `src` to `dst` one after another,
/// stopping at the first failure, and whether all were copied.
pub open spec fn copy_words(m: Mem, src: u64, dst: int, n: nat, lenient: bool) -> (Mem, bool)
    decreases n,
{
    if n == 0 {
        (m, true)
    } else {
        let (before, ok) = copy_words(m, src, dst, (n - 1) as nat, lenient);
        if !ok {
            (before, false)
        } else {
            match copied(before, src, n - 1, lenient) {
                Some(v) => put_u32(before, dst + 4 * (n - 1), v),
                None => (before, false),
            }
        }
    }
}

/// Once a copy failed, the rest is not attempted.
proof fn lemma_copy_words_stops(m: Mem, src: u64, dst: int, k: nat, n: nat, lenient: bool)
    requires
        k <= n,
        !copy_words(m, src, dst, k, lenient).1,
    ensures
        copy_words(m, src, dst, n, lenient) == copy_words(m, src, dst, k, lenient),
    decreases n - k,
{
    if k < n {
        lemma_copy_words_stops(m, src, dst, k + 1, n, lenient);
    }
}

/// Copy `n` DWORDs from `src` to `base + off`.
pub(crate) fn copy_guest_words(
    ctx: &mut HleContext,
    src: u64,
    base: u64,
    off: u64,
    n: u64,
    lenient: bool,
) -> (ok: bool)
    requires
        base + off + 4 * n <= u64::MAX,
    ensures
        final(ctx)@ == old(ctx)@.with_mem(
            copy_words(old(ctx)@.mem, src, base + off, n as nat, lenient).0,
        ),
        ok == copy_words(old(ctx)@.mem, src, base + off, n as nat, lenient).1,
{
    let ghost before = ctx@;
    let mut i: u64 = 0;
    while i < n
        invariant
            i <= n,
            before == old(ctx)@,
            base + off + 4 * n <= u64::MAX,
            copy_words(before.mem, src, base + off, i as nat, lenient) == (ctx@.mem, true),
            ctx@ == before.with_mem(ctx@.mem),
        decreases n - i,
    {
        let value: u32 = if src == 0 {
            0
        } else {
            match ctx.mem.read_u32(src, 4 * i) {
                Some(v) => v,
                None => {
                    if !lenient {
                        proof {
                            lemma_copy_words_stops(
                                before.mem,
                                src,
                                base + off,
                                (i + 1) as nat,
                                n as nat,
                                lenient,
                            );
                        }
                        return false;
                    }
                    0
                },
            }
        };
        if !ctx.mem.write_u32(base, off + 4 * i, value) {
            proof {
                lemma_copy_words_stops(
                    before.mem,
                    src,
                    base + off,
                    (i + 1) as nat,
                    n as nat,
                    lenient,
                );
            }
            return false;
        }
        i += 1;
    }
    true
}

/// A packet of `head` and `n` DWORDs copied from `src`.
pub open spec fn emit_copy(
    m: Machine,
    cb: u64,
    head: Seq<u32>,
    src: u64,
    n: u64,
    lenient: bool,
) -> (Machine, u64) {
    if cb == 0 || head.len() + n > u64::MAX {
        (m, 0)
    } else {
        match allocate(m, cb, (head.len() + n) as u64) {
            (m1, None) => (m1, 0),
            (m1, Some(at)) => {
                let (mem_a, ok_a) = write_words(m1.mem, at as int, head);
                if !ok_a {
                    (m1.with_mem(mem_a), 0)
                } else {
                    let (mem_b, ok_b) = copy_words(
                        mem_a,
                        src,
                        at + 4 * head.len(),
                        n as nat,
                        lenient,
                    );
                    (m1.with_mem(mem_b), if ok_b {
                        at
                    } else {
                        0
                    })
                }
            },
        }
    }
}

/// Build a packet of `head` and `n` DWORDs copied from `src`.
pub(crate) fn emit_copy_packet(
    ctx: &mut HleContext,
    cb: u64,
    head: &[u32],
    src: u64,
    n: u64,
    lenient: bool,
) -> (r: u64)
    requires
        head@.len() <= 0x1000,
    ensures
        final(ctx)@ == emit_copy(old(ctx)@, cb, head@, src, n, lenient).0,
        r == emit_copy(old(ctx)@, cb, head@, src, n, lenient).1,
{
    if cb == 0 {
        return 0;
    }
    let k: u64 = head.len() as u64;
    if n > u64::MAX - k {
        return 0;
    }
    let at: u64 = match alloc_command_dwords(ctx, cb, k + n) {
        Some(at) => at,
        None => {
            return 0;
        },
    };
    if !put_words(ctx, at, 0, head) {
        return 0;
    }
    if !copy_guest_words(ctx, src, at, 4 * k, n, lenient) {
        return 0;
    }
    at
}

/// The most DWORDs that one data write can carry.
pub const WRITE_DATA_MAX_DWORDS: u32 = 0x3FFD;

/// A packet that carries its data inline: `dwordCount` DWORDs read from the
/// data address, or zeros when that is null. A null destination is legal; it
/// is patched in later.
pub open spec fn dcb_write_data(m: Machine, a: Seq<u64>) -> (Machine, u64) {
    let n = lo(arg(a, 5));
    if n > WRITE_DATA_MAX_DWORDS {
        (m, 0)
    } else {
        emit_copy(
            m,
            arg(a, 0),
            seq![
                header((n + 4) as u32, IT_NOP, R_WRITE_DATA),
                bytes4(arg(a, 1), arg(a, 2), arg(a, 6), arg(a, 7)),
                lo(arg(a, 3)),
                hi(arg(a, 3)),
            ],
            arg(a, 4),
            n as u64,
            false,
        )
    }
}

/// `sceAgcDcbWriteData(dcb, destination, cachePolicy, destinationAddress,
/// dataAddress, dwordCount, increment, writeConfirm)`.
pub fn hle_dcb_write_data(ctx: &mut HleContext, args: &[u64]) -> (r: u64)
    ensures
        final(ctx)@ == dcb_write_data(old(ctx)@, args@).0,
        r == dcb_write_data(old(ctx)@, args@).1,
{
    let n: u32 = lo32(get_arg(args, 5));
    if n > WRITE_DATA_MAX_DWORDS {
        return 0;
    }
    emit_copy_packet(
        ctx,
        get_arg(args, 0),
        &[
            pm4(n + 4, IT_NOP, R_WRITE_DATA),
            pack_bytes4(get_arg(args, 1), get_arg(args, 2), get_arg(args, 6), get_arg(args, 7)),
            lo32(get_arg(args, 3)),
            hi32(get_arg(args, 3)),
        ],
        get_arg(args, 4),
        n as u64,
        false,
    )
}

/// A marker packet, then one packet that sets a range of SH registers to the
/// values at an address; what cannot be read is zero. A count so large that the
/// packet's length leaves the 64-bit range fails like a full buffer.
pub open spec fn cb_set_sh_register_range(m: Machine, a: Seq<u64>) -> (Machine, u64) {
    let offset = lo(arg(a, 1));
    let n = arg(a, 3);
    if offset == 0 || offset > 0x3FF || n == 0 {
        (m, 0)
    } else {
        match emit_at(m, arg(a, 0), seq![header(2, IT_NOP, R_ZERO), SET_SH_RANGE_MARKER]) {
            (m1, None) => (m1, 0),
            (m1, Some(_)) => emit_copy(
                m1,
                arg(a, 0),
                seq![header((n + 2) as u32, IT_SET_SH_REG, R_ZERO), offset],
                arg(a, 2),
                n,
                true,
            ),
        }
    }
}

/// `sceAgcCbSetShRegisterRangeDirect(cb, offset, values, valueCount)`.
pub fn hle_cb_set_sh_register_range(ctx: &mut HleContext, args: &[u64]) -> (r: u64)
    ensures
        final(ctx)@ == cb_set_sh_register_range(old(ctx)@, args@).0,
        r == cb_set_sh_register_range(old(ctx)@, args@).1,
{
    let cb: u64 = get_arg(args, 0);
    let offset: u32 = lo32(get_arg(args, 1));
    let n: u64 = get_arg(args, 3);
    if offset == 0 || offset > 0x3FF || n == 0 {
        return 0;
    }
    match try_emit(ctx, cb, &[pm4(2, IT_NOP, R_ZERO), SET_SH_RANGE_MARKER]) {
        Some(_) => {},
        None => {
            return 0;
        },
    }
    if n > u64::MAX - 2 {
        return 0;
    }
    emit_copy_packet(
        ctx,
        cb,
        &[pm4((n + 2) as u32, IT_SET_SH_REG, R_ZERO), offset],
        get_arg(args, 2),
        n,
        true,
    )
}

/// The most registers that one range or one run list can set.
pub const REGISTER_LIST_MAX: u64 = 4096;

/// One packet that sets a range of UCONFIG registers to the values at an
/// address; what cannot be read is zero.
pub open spec fn cb_set_uc_register_range(m: Machine, a: Seq<u64>) -> (Machine, u64) {
    let n = arg(a, 3);
    if n == 0 || n > REGISTER_LIST_MAX {
        (m, 0)
    } else {
        emit_copy(
            m,
            arg(a, 0),
            seq![header((n + 2) as u32, IT_SET_UCONFIG_REG, R_ZERO), lo(arg(a, 1)) & 0xFFFF],
            arg(a, 2),
            n,
            true,
        )
    }
}

/// `sceAgcCbSetUcRegisterRangeDirect(cb, offset, values, valueCount)`.
pub fn hle_cb_set_uc_register_range(ctx: &mut HleContext, args: &[u64]) -> (r: u64)
    ensures
        final(ctx)@ == cb_set_uc_register_range(old(ctx)@, args@).0,
        r == cb_set_uc_register_range(old(ctx)@, args@).1,
{
    let n: u64 = get_arg(args, 3);
    if n == 0 || n > REGISTER_LIST_MAX {
        return 0;
    }
    emit_copy_packet(
        ctx,
        get_arg(args, 0),
        &[pm4((n + 2) as u32, IT_SET_UCONFIG_REG, R_ZERO), lo32(get_arg(args, 1)) & 0xFFFF],
        get_arg(args, 2),
        n,
        true,
    )
}

/// The mask with one bit per workload of the list at `a`, or `None` when the
/// list is unreadable, names a workload above 63, or names one twice.
pub open spec fn workload_mask(m: Mem, a: int, n: nat) -> Option<u64>
    decreases n,
{
    if n == 0 {
        Some(0)
    } else {
        match (workload_mask(m, a, (n - 1) as nat), load_u32(m, a + 4 * (n - 1))) {
            (Some(mask), Some(id)) => if id > WORKLOAD_ID_MAX || mask & (1u64 << id) != 0 {
                None
            } else {
                Some(mask | (1u64 << id))
            },
            _ => None,
        }
    }
}

/// A bad entry spoils the whole list.
proof fn lemma_workload_mask_stops(m: Mem, a: int, k: nat, n: nat)
    requires
        k <= n,
        workload_mask(m, a, k) is None,
    ensures
        workload_mask(m, a, n) is None,
    decreases n - k,
{
    if k < n {
        lemma_workload_mask_stops(m, a, k + 1, n);
    }
}

/// Compute the mask of a workload list.
fn read_workload_mask(ctx: &HleContext, list: u64, n: u64) -> (r: Option<u64>)
    requires
        n <= WORKLOAD_ACTIVE_COUNT_MAX,
    ensures
        r == workload_mask(ctx@.mem, list as int, n as nat),
{
    let mut mask: u64 = 0;
    let mut i: u64 = 0;
    while i < n
        invariant
            i <= n,
            n <= WORKLOAD_ACTIVE_COUNT_MAX,
            workload_mask(ctx@.mem, list as int, i as nat) == Some(mask),
        decreases n - i,
    {
        proof {
            if workload_mask(ctx@.mem, list as int, (i + 1) as nat) is None {
                lemma_workload_mask_stops(ctx@.mem, list as int, (i + 1) as nat, n as nat);
            }
        }
        match ctx.mem.read_u32(list, 4 * i) {
            Some(id) => {
                if id as u64 > WORKLOAD_ID_MAX {
                    return None;
                }
                if mask & (1u64 << id) != 0 {
                    return None;
                }
                mask = mask | (1u64 << id);
            },
            None => {
                return None;
            },
        }
        i += 1;
    }
    Some(mask)
}

/// A marker that the listed workloads of a stream are active.
pub open spec fn dcb_set_workloads_active(m: Machine, a: Seq<u64>) -> (Machine, u64) {
    let stream = arg(a, 1);
    let list = arg(a, 2);
    let n = arg(a, 3);
    if list == 0 || n == 0 || n > WORKLOAD_ACTIVE_COUNT_MAX || stream < WORKLOAD_STREAM_MIN_ID
        || stream > WORKLOAD_STREAM_MAX_ID {
        (m, 0)
    } else {
        match workload_mask(m.mem, list as int, n as nat) {
            None => (m, 0),
            Some(mask) => emit(
                m,
                arg(a, 0),
                seq![header(18, IT_NOP, R_ZERO), lo(stream), lo(mask), hi(mask)] + Seq::new(
                    14,
                    |i: int| 0u32,
                ),
            ),
        }
    }
}

/// `sceAgc{Dcb,Acb}SetWorkloadsActive(cb, streamId, workloadIds, workloadCount)`.
pub fn hle_dcb_set_workloads_active(ctx: &mut HleContext, args: &[u64]) -> (r: u64)
    ensures
        final(ctx)@ == dcb_set_workloads_active(old(ctx)@, args@).0,
        r == dcb_set_workloads_active(old(ctx)@, args@).1,
{
    let stream: u64 = get_arg(args, 1);
    let list: u64 = get_arg(args, 2);
    let n: u64 = get_arg(args, 3);
    if list == 0 || n == 0 || n > WORKLOAD_ACTIVE_COUNT_MAX || stream < WORKLOAD_STREAM_MIN_ID
        || stream > WORKLOAD_STREAM_MAX_ID {
        return 0;
    }
    let mask: u64 = match read_workload_mask(ctx, list, n) {
        Some(mask) => mask,
        None => {
            return 0;
        },
    };
    let words: [u32; 18] = [
        pm4(18, IT_NOP, R_ZERO),
        lo32(stream),
        lo32(mask),
        hi32(mask),
        0,
        0,
        0,
        0,
        0,
        0,
        0,
        0,
        0,
        0,
        0,
        0,
        0,
        0,
    ];
    assert(words@ =~= seq![header(18, IT_NOP, R_ZERO), lo(stream), lo(mask), hi(mask)] + Seq::new(
        14,
        |i: int| 0u32,
    ));
    emit_packet(ctx, get_arg(args, 0), &words)
}

} // verus!
