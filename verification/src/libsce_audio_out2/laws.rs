//! What contexts and ports are made of, against the parameter blocks that they are
//! made from, and what a push plays of them.
use vstd::prelude::*;
use crate::agc::fields::{lemma_put_u64_keeps, lemma_word};
use crate::agc::packet::lo;
use crate::context::{arg, Machine};
use crate::libsce_audio_out2::{
    answers, context_create, context_destroy, context_get_queue_level, context_query_memory,
    context_reset_param, data_format, get_speaker_info, law_row_keeps_port, new_port, paced,
    pcm_pointer, plays, plays_in_order, port_create, port_destroy, port_get_state, port_handle, port_samples,
    port_set_attributes, port_state, pushed, row_port, user_create, AudioOut2Export,
    PortAudio, Samples,
};
use crate::mem::{
    bytes_of, law_read_back_u64, law_words_read_back, load, load_u32, load_u64, load_words, mapped,
    put, put_u64, Mem,
};
use crate::pace::duration;
use crate::registry::Reply;

verus! {

/// The port under a handle.
pub open spec fn port_of(m: Machine, handle: u64) -> PortAudio {
    row_port(m.audio_out2.ports[handle])
}

/// The handle that a call stored at `out`.
pub open spec fn stored(m: Machine, out: u64) -> u64 {
    load_u64(m.mem, out as int)->0
}

/// The fields of a data format: its channels in bits 8 to 15 (none means stereo,
/// and there are at most 16), and floating point where its low seven bits are zero.
pub proof fn law_data_format(f: u32)
    ensures
        ({
            let c = f / 0x100 % 0x100;
            let (channels, is_float) = data_format(f);
            &&& c == 0 ==> channels == 2
            &&& 1 <= c <= 16 ==> channels == c
            &&& c > 16 ==> channels == 16
            &&& is_float <==> f % 0x80 == 0
        }),
{
    assert((f >> 8) & 0xFF == f / 0x100 % 0x100 && f & 0x7F == f % 0x80) by (bit_vector);
}

/// A port that is created from a readable parameter block has the block's sample
/// rate (at 8) if it is one from 8000 to 192000, and 48000 otherwise; the channels
/// and the sample type of its data format (at 4); and no samples yet.
pub proof fn law_created_port_has_its_format(m: Machine, a: Seq<u64>)
    requires
        port_create(m, a).1 == 0,
    ensures
        ({
            let after = port_create(m, a).0;
            let handle = stored(after, arg(a, 2));
            let p = port_of(after, handle);
            let rate = load_u32(m.mem, arg(a, 1) + 0x08)->0;
            let format = load_u32(m.mem, arg(a, 1) + 0x04)->0;
            let c = format / 0x100 % 0x100;
            &&& after.audio_out2.ports.dom().contains(handle)
            &&& mapped(m.mem, arg(a, 1) as int, 0x10) ==> {
                &&& 8000 <= rate <= 192000 ==> p.sample_rate == rate
                &&& rate < 8000 || rate > 192000 ==> p.sample_rate == 48000
                &&& c == 0 ==> p.channels == 2
                &&& 1 <= c <= 16 ==> p.channels == c
                &&& c > 16 ==> p.channels == 16
                &&& p.is_float <==> format % 0x80 == 0
            }
            &&& !mapped(m.mem, arg(a, 1) as int, 0x10) ==> p.sample_rate == 48000 && p.channels == 2
                && p.is_float
            &&& p.pcm_ptr == 0
        }),
{
    lemma_created(m, a);
    law_row_keeps_port(new_port(m, a));
    let param = arg(a, 1);
    if mapped(m.mem, param as int, 0x10) {
        assert forall|x: int| param + 4 <= x < param + 8 implies #[trigger] m.mem.dom().contains(
            x,
        ) by {}
        assert forall|x: int| param + 8 <= x < param + 12 implies #[trigger] m.mem.dom().contains(
            x,
        ) by {}
        assert(mapped(m.mem, param + 4, 4) && mapped(m.mem, param + 8, 4));
        law_data_format(load_u32(m.mem, param + 0x04)->0);
    }
}

proof fn lemma_created(m: Machine, a: Seq<u64>)
    requires
        port_create(m, a).1 == 0,
    ensures
        ({
            let after = port_create(m, a).0;
            let number = m.audio_out2.next_port_id.wrapping_add(1);
            let handle = port_handle(lo(arg(a, 0)), number);
            &&& stored(after, arg(a, 2)) == handle
            &&& after.audio_out2.ports.dom().contains(handle)
            &&& port_of(after, handle) == new_port(m, a)
            &&& after.audio_out2.contexts == m.audio_out2.contexts
            &&& after.audio_out2.next_port_id == number
        }),
{
    let number = m.audio_out2.next_port_id.wrapping_add(1);
    let handle = port_handle(lo(arg(a, 0)), number);
    law_row_keeps_port(new_port(m, a));
    law_read_back_u64(m.mem, arg(a, 2) as int, handle);
}

/// A port is made for a kind below 256, with nothing null among its arguments. Its
/// handle carries a mark, the kind, and the low byte of the port's number; it plays
/// in the context that the first argument names, or else the fourth, in grains of
/// that context's size, or of 256 where neither is a context.
pub proof fn law_created_port_has_its_context(m: Machine, a: Seq<u64>)
    ensures
        ({
            let (after, code) = port_create(m, a);
            let kind = arg(a, 0) as u32;
            let valid = kind <= 255 && arg(a, 1) != 0 && arg(a, 2) != 0 && arg(a, 3) != 0;
            let contexts = m.audio_out2.contexts;
            let handle = stored(after, arg(a, 2));
            let p = port_of(after, handle);
            &&& !valid ==> code == 0x8002_0016 && after == m
            &&& valid && mapped(m.mem, arg(a, 2) as int, 8) ==> code == 0
            &&& valid && !mapped(m.mem, arg(a, 2) as int, 8) ==> code == 0x8002_000E
            &&& code == 0 ==> {
                &&& handle == 0x2000_0000 + 0x1_0000 * kind + (m.audio_out2.next_port_id + 1) % 0x100
                &&& arg(a, 0) != 0 && contexts.dom().contains(arg(a, 0)) ==> {
                    &&& p.context == arg(a, 0)
                    &&& p.grain == contexts[arg(a, 0)].0 as u32
                }
                &&& (arg(a, 0) == 0 || !contexts.dom().contains(arg(a, 0)))
                    && contexts.dom().contains(arg(a, 3)) ==> {
                    &&& p.context == arg(a, 3)
                    &&& p.grain == contexts[arg(a, 3)].0 as u32
                }
                &&& !contexts.dom().contains(arg(a, 0)) && !contexts.dom().contains(arg(a, 3))
                    && !contexts.dom().contains(0) ==> p.context == 0 && p.grain == 256
                &&& forall|k: u64|
                    k != handle && m.audio_out2.ports.dom().contains(k) ==> #[trigger] port_of(
                        after,
                        k,
                    ) == port_of(m, k)
            }
        }),
{
    let (after, code) = port_create(m, a);
    if code == 0 {
        lemma_created(m, a);
        let kind = arg(a, 0) as u32;
        let id = m.audio_out2.next_port_id;
        let number: u32 = id.wrapping_add(1);
        assert(number == (id + 1) % 0x1_0000_0000);
        assert(kind <= 255 ==> 0x2000_0000u64 | ((kind as u64) << 16) | (number & 0xFF) as u64
            == 0x2000_0000 + 0x1_0000 * kind + number % 0x100) by (bit_vector);
    }
    lemma_put_u64_keeps(m.mem, arg(a, 2) as int, 0, 0, 0);
    lemma_handle_fits(m, a);
}

proof fn lemma_handle_fits(m: Machine, a: Seq<u64>)
    ensures
        forall|v: u64|
            (#[trigger] put_u64(m.mem, arg(a, 2) as int, v)).1 == mapped(
                m.mem,
                arg(a, 2) as int,
                8,
            ),
{
    assert forall|v: u64|
        (#[trigger] put_u64(m.mem, arg(a, 2) as int, v)).1 == mapped(
            m.mem,
            arg(a, 2) as int,
            8,
        ) by {
        lemma_put_u64_keeps(m.mem, arg(a, 2) as int, v, 0, 0);
    }
}

/// What a push plays of a port: its whole grain, in the port's own rate, channels
/// and sample type, as it stands at the port's samples: four bytes a sample in
/// floating point, two otherwise. It plays nothing without samples, and nothing
/// beyond a mebibyte.
pub proof fn law_push_plays_the_port(m: Machine, context: u64, order: Seq<u64>, out: Seq<Samples>, i: int)
    requires
        pushed(m, context, order, out),
        0 <= i < order.len(),
        1 <= port_of(m, order[i]).channels <= 16,
    ensures
        ({
            let p = port_of(m, order[i]);
            let n = p.grain * p.channels * (if p.is_float {
                4int
            } else {
                2int
            });
            &&& p.context == context
            &&& p.pcm_ptr != 0 && 0 < n <= 0x10_0000
            &&& out[i].sample_rate == p.sample_rate
            &&& out[i].frames == p.grain
            &&& out[i].channels == p.channels
            &&& out[i].is_float == p.is_float
            &&& Some(out[i].pcm) == load(m.mem, p.pcm_ptr as int, n as nat)
        }),
{
    assert(order.contains(order[i]));
    assert(plays(m, context, order[i]));
    assert(Some(out[i]) == port_samples(m.mem, port_of(m, order[i])));
}

/// A push leaves out no port of its context that has samples to play.
pub proof fn law_push_leaves_none_out(
    m: Machine,
    context: u64,
    order: Seq<u64>,
    out: Seq<Samples>,
    k: u64,
)
    requires
        pushed(m, context, order, out),
        m.audio_out2.ports.dom().contains(k),
        port_of(m, k).context == context,
        port_of(m, k).pcm_ptr != 0,
        1 <= port_of(m, k).channels <= 16,
        ({
            let p = port_of(m, k);
            let n = p.grain * p.channels * (if p.is_float {
                4int
            } else {
                2int
            });
            0 < n <= 0x10_0000 && mapped(m.mem, p.pcm_ptr as int, n as nat)
        }),
    ensures
        order.contains(k),
{
    assert(plays(m, context, k));
}

/// The sample rate of the parameter block is the rate of every submission that a
/// push makes for the port, whatever attributes it was given in between.
pub proof fn law_pushes_play_at_the_rate(
    m: Machine,
    a: Seq<u64>,
    b: Seq<u64>,
    context: u64,
    order: Seq<u64>,
    out: Seq<Samples>,
    i: int,
)
    requires
        port_create(m, a).1 == 0,
        mapped(m.mem, arg(a, 1) as int, 0x10),
        8000 <= load_u32(m.mem, arg(a, 1) + 0x08)->0 <= 192000,
        pushed(port_set_attributes(port_create(m, a).0, b).0, context, order, out),
        0 <= i < order.len(),
        order[i] == stored(port_create(m, a).0, arg(a, 2)),
    ensures
        Some(out[i].sample_rate) == load_u32(m.mem, arg(a, 1) + 0x08),
{
    let m1 = port_create(m, a).0;
    let m2 = port_set_attributes(m1, b).0;
    law_created_port_has_its_format(m, a);
    let param = arg(a, 1);
    assert forall|x: int| param + 8 <= x < param + 12 implies #[trigger] m.mem.dom().contains(
        x,
    ) by {}
    assert(mapped(m.mem, param + 8, 4));
    assert(port_of(m2, order[i]).sample_rate == port_of(m1, order[i]).sample_rate);
    assert(order.contains(order[i]));
    assert(plays(m2, context, order[i]));
    assert(Some(out[i]) == port_samples(m2.mem, port_of(m2, order[i])));
}

/// Attribute `i` of the list at `attributes` names samples: it is readable, its id
/// (at 0) is 0, its value (whose address is at 8 and whose size, at 0x10, is at
/// least eight) can be read.
pub open spec fn names_samples(m: Mem, attributes: u64, i: int) -> bool {
    let base = attributes + 24 * i;
    let value = load_u64(m, base + 0x08)->0;
    &&& mapped(m, base, 24)
    &&& load_u32(m, base) == Some(0u32)
    &&& value != 0
    &&& load_u64(m, base + 0x10)->0 >= 8
    &&& load_u64(m, value as int) is Some
}

/// The last of the attributes decides if it names samples; attributes that do not
/// leave the samples as they were.
proof fn lemma_attributes(m: Mem, attributes: u64, i: nat, n: nat, pcm: u64)
    requires
        forall|k: int| i <= k < i + n ==> #[trigger] mapped(m, attributes + 24 * k, 24),
    ensures
        n > 0 && names_samples(m, attributes, i + n - 1) ==> Some(
            pcm_pointer(m, attributes, i, n, pcm),
        ) == load_u64(m, load_u64(m, attributes + 24 * (i + n - 1) + 0x08)->0 as int),
        (forall|k: int| i <= k < i + n ==> !#[trigger] names_samples(m, attributes, k))
            ==> pcm_pointer(m, attributes, i, n, pcm) == pcm,
    decreases n,
{
    if n > 0 {
        let base = attributes + 24 * (i as int);
        assert(mapped(m, base, 24));
        let value = load_u64(m, base + 0x08);
        let found = load_u32(m, base) == Some(0u32) && value->0 != 0 && load_u64(
            m,
            base + 0x10,
        )->0 >= 8;
        let data = load_u64(m, value->0 as int);
        let next = if found && data is Some {
            data->0
        } else {
            pcm
        };
        assert(names_samples(m, attributes, i as int) == (found && data is Some));
        lemma_attributes(m, attributes, i + 1, (n - 1) as nat, next);
        reveal_with_fuel(pcm_pointer, 2);
        if n == 1 {
            assert(pcm_pointer(m, attributes, i + 1, 0, next) == next);
        }
    }
}

/// A port's samples are where its last attribute says, the first 64 of a list
/// counting; attributes change nothing else of the port, and no other port.
pub proof fn law_attributes_name_the_samples(m: Machine, a: Seq<u64>)
    requires
        arg(a, 0) != 0,
        arg(a, 1) != 0,
        0 < arg(a, 2) <= 64,
        m.audio_out2.ports.dom().contains(arg(a, 0)),
        forall|k: int| 0 <= k < arg(a, 2) ==> #[trigger] mapped(m.mem, arg(a, 1) + 24 * k, 24),
    ensures
        ({
            let (after, code) = port_set_attributes(m, a);
            let p = port_of(after, arg(a, 0));
            let q = port_of(m, arg(a, 0));
            let last = arg(a, 1) + 24 * (arg(a, 2) - 1);
            &&& code == 0
            &&& names_samples(m.mem, arg(a, 1), arg(a, 2) - 1) ==> Some(p.pcm_ptr) == load_u64(
                m.mem,
                load_u64(m.mem, last + 0x08)->0 as int,
            )
            &&& (forall|k: int|
                0 <= k < arg(a, 2) ==> !#[trigger] names_samples(m.mem, arg(a, 1), k))
                ==> p.pcm_ptr == q.pcm_ptr
            &&& p.context == q.context && p.channels == q.channels && p.is_float == q.is_float
            &&& p.sample_rate == q.sample_rate && p.grain == q.grain
            &&& after.mem == m.mem
            &&& forall|k: u64|
                k != arg(a, 0) && m.audio_out2.ports.dom().contains(k) ==> #[trigger] port_of(
                    after,
                    k,
                ) == port_of(m, k)
        }),
{
    let row = m.audio_out2.ports[arg(a, 0)];
    lemma_attributes(m.mem, arg(a, 1), 0, arg(a, 2) as nat, row.5);
}

/// A context is made with nothing null among its arguments, under the next handle,
/// which is stored. It plays the grain (at 12) and the frequency (at 8) of its
/// parameter block, or 256 at 48000 where they are zero.
pub proof fn law_created_context(m: Machine, a: Seq<u64>)
    ensures
        ({
            let (after, code) = context_create(m, a);
            let valid = arg(a, 0) != 0 && arg(a, 1) != 0 && arg(a, 2) != 0 && arg(a, 3) != 0;
            let handle = stored(after, arg(a, 3));
            let frequency = load_u32(m.mem, arg(a, 0) + 0x08)->0;
            let grain = load_u32(m.mem, arg(a, 0) + 0x0C)->0;
            let f: u32 = if frequency == 0 {
                48000
            } else {
                frequency
            };
            let g: u32 = if grain == 0 {
                256
            } else {
                grain
            };
            &&& !valid ==> code == 0x8002_0016 && after == m
            &&& valid && code != 0 ==> code == 0x8002_000E
            &&& valid && mapped(m.mem, arg(a, 3) as int, 8) ==> code == 0
            &&& code == 0 ==> handle == (m.audio_out2.next_context_handle + 1)
                % 0x1_0000_0000_0000_0000
            &&& code == 0 && mapped(m.mem, arg(a, 0) as int, 0x30) ==> {
                &&& after.audio_out2.contexts.dom().contains(handle)
                &&& after.audio_out2.contexts[handle].0 == g
                &&& after.audio_out2.contexts[handle].1 == duration(g, f) as u64
                &&& after.audio_out2.contexts[handle].2 == 0
            }
        }),
{
    let handle = m.audio_out2.next_context_handle.wrapping_add(1);
    lemma_put_u64_keeps(m.mem, arg(a, 3) as int, handle, 0, 0);
    if context_create(m, a).1 == 0 {
        law_read_back_u64(m.mem, arg(a, 3) as int, handle);
    }
    let param = arg(a, 0);
    if mapped(m.mem, param as int, 0x30) {
        assert forall|x: int| param + 8 <= x < param + 12 implies #[trigger] m.mem.dom().contains(
            x,
        ) by {}
        assert forall|x: int| param + 12 <= x < param + 16 implies #[trigger] m.mem.dom().contains(
            x,
        ) by {}
        assert(mapped(m.mem, param + 8, 4) && mapped(m.mem, param + 12, 4));
    }
}

/// The time that a grain takes is the nearest whole number of nanoseconds.
pub proof fn law_grain_duration(samples: u32, rate: u32)
    requires
        rate > 0,
    ensures
        -(rate as int) <= 2 * (duration(samples, rate) * rate - samples * 1_000_000_000)
            <= rate,
{
    let n = samples as int * 1_000_000_000;
    let r = rate as int;
    vstd::arithmetic::div_mod::lemma_fundamental_div_mod(n, r);
    let q = n / r;
    assert((q + 1) * r == q * r + r) by (nonlinear_arith);
    assert(q * r == r * q) by (nonlinear_arith);
}

/// A push or an advance of a context waits until the context's time, moves that
/// time on by a grain, and changes nothing else.
pub proof fn law_pace(m: Machine, context: u64, now: u64)
    requires
        m.audio_out2.contexts.dom().contains(context),
    ensures
        ({
            let (after, wait) = paced(m, context, now);
            let due = m.audio_out2.contexts[context].2;
            let step = m.audio_out2.contexts[context].1;
            let start: u64 = if due > now {
                due
            } else {
                now
            };
            &&& now + wait == start
            &&& start + step <= u64::MAX ==> after.audio_out2.contexts[context].2 == start + step
            &&& start + step > u64::MAX ==> after.audio_out2.contexts[context].2 == u64::MAX
            &&& after.audio_out2.contexts[context].0 == m.audio_out2.contexts[context].0
            &&& after.audio_out2.contexts[context].1 == step
            &&& after.mem == m.mem && after.audio_out2.ports == m.audio_out2.ports
        }),
{
}

proof fn lemma_block(m: Mem, at: int, words: Seq<u32>)
    requires
        put(m, at, bytes_of(words)).1,
    ensures
        load_words(put(m, at, bytes_of(words)).0, at, words.len()) == Some(words),
{
    law_words_read_back(m, at, words);
}

/// The blocks that the library fills in: the defaults of a context (its size, stereo,
/// 48000, a queue of 0x400), the memory that a context takes, its queue level, and
/// the speakers.
pub proof fn law_filled_blocks(m: Machine, a: Seq<u64>)
    ensures
        ({
            let (after, code) = context_reset_param(m, a);
            let p = arg(a, 0) as int;
            &&& p == 0 ==> code == 0x8002_0016 && after == m
            &&& p != 0 && code != 0 ==> code == 0x8002_000E && after == m
            &&& p != 0 && mapped(m.mem, p, 0x30) ==> code == 0
            &&& code == 0 ==> {
                &&& load_u32(after.mem, p) == Some(0x30u32)
                &&& load_u32(after.mem, p + 4) == Some(2u32)
                &&& load_u32(after.mem, p + 8) == Some(48000u32)
                &&& load_u32(after.mem, p + 12) == Some(0x400u32)
                &&& forall|i: int|
                    4 <= i < 12 ==> #[trigger] load_u32(after.mem, p + 4 * i) == Some(0u32)
            }
        }),
        ({
            let (after, code) = context_query_memory(m, a);
            let valid = arg(a, 0) != 0 && arg(a, 1) != 0;
            &&& !valid ==> code == 0x8002_0016 && after == m
            &&& code == 0 ==> load_u64(after.mem, arg(a, 1) as int) == Some(0x1_0000u64)
        }),
        ({
            let (after, code) = context_get_queue_level(m, a);
            &&& arg(a, 1) == 0 ==> code == 0 && after == m
            &&& arg(a, 1) != 0 && code == 0 ==> load_u64(after.mem, arg(a, 1) as int) == Some(0u64)
        }),
        ({
            let (after, code) = get_speaker_info(m, a);
            let p = arg(a, 0) as int;
            &&& p == 0 ==> code == 0x8002_0016 && after == m
            &&& code == 0 ==> {
                &&& load_u32(after.mem, p) == Some(1u32)
                &&& load_u32(after.mem, p + 4) == Some(2u32)
                &&& load_u32(after.mem, p + 8) == Some(48000u32)
                &&& forall|i: int|
                    3 <= i < 16 ==> #[trigger] load_u32(after.mem, p + 4 * i) == Some(0u32)
            }
        }),
{
    let p = arg(a, 0) as int;
    let param = seq![0x30u32, 2u32, 48000u32, 0x400u32, 0, 0, 0, 0, 0, 0, 0, 0];
    let speakers = seq![1u32, 2u32, 48000u32, 0, 0, 0, 0, 0, 0, 0, 0, 0, 0, 0, 0, 0];
    if context_reset_param(m, a).1 == 0 {
        let after = context_reset_param(m, a).0.mem;
        lemma_block(m.mem, p, param);
        lemma_word(after, p, param, 0);
        lemma_word(after, p, param, 1);
        lemma_word(after, p, param, 2);
        lemma_word(after, p, param, 3);
        assert forall|i: int| 4 <= i < 12 implies #[trigger] load_u32(after, p + 4 * i) == Some(
            0u32,
        ) by {
            lemma_word(after, p, param, i);
        }
    }
    if context_query_memory(m, a).1 == 0 {
        law_read_back_u64(m.mem, arg(a, 1) as int, 0x1_0000);
    }
    if context_get_queue_level(m, a).1 == 0 && arg(a, 1) != 0 {
        law_read_back_u64(m.mem, arg(a, 1) as int, 0);
    }
    if get_speaker_info(m, a).1 == 0 {
        let after = get_speaker_info(m, a).0.mem;
        lemma_block(m.mem, p, speakers);
        lemma_word(after, p, speakers, 0);
        lemma_word(after, p, speakers, 1);
        lemma_word(after, p, speakers, 2);
        assert forall|i: int| 3 <= i < 16 implies #[trigger] load_u32(after, p + 4 * i) == Some(
            0u32,
        ) by {
            lemma_word(after, p, speakers, i);
        }
    }
}

/// The state of a port: a port of kind 2 is a mono one on output 0x40, every other
/// a stereo one on output 1; the volume is full.
pub proof fn law_port_state_block(m: Machine, a: Seq<u64>)
    ensures
        ({
            let (after, code) = port_get_state(m, a);
            let p = arg(a, 1) as int;
            let kind = arg(a, 0) / 0x1_0000 % 0x100;
            &&& arg(a, 0) == 0 || arg(a, 1) == 0 ==> code == 0x8002_0016 && after == m
            &&& code == 0 ==> {
                &&& kind == 2 ==> load_u32(after.mem, p) == Some(0x0001_0040u32)
                &&& kind != 2 ==> load_u32(after.mem, p) == Some(0x0002_0001u32)
                &&& load_u32(after.mem, p + 4) == Some(0xFFFFu32)
                &&& forall|i: int|
                    2 <= i < 8 ==> #[trigger] load_u32(after.mem, p + 4 * i) == Some(0u32)
            }
        }),
{
    let h = arg(a, 0);
    let p = arg(a, 1) as int;
    assert((h >> 16) & 0xFF == h / 0x1_0000 % 0x100) by (bit_vector);
    if port_get_state(m, a).1 == 0 {
        let words = port_state(h);
        let after = port_get_state(m, a).0.mem;
        lemma_block(m.mem, p, words);
        lemma_word(after, p, words, 0);
        lemma_word(after, p, words, 1);
        assert forall|i: int| 2 <= i < 8 implies #[trigger] load_u32(after, p + 4 * i) == Some(
            0u32,
        ) by {
            lemma_word(after, p, words, i);
        }
    }
}

/// A user handle is given to the known users (0, 1, 255 and 1000), and stored.
pub proof fn law_created_user(m: Machine, a: Seq<u64>)
    ensures
        ({
            let (after, code) = user_create(m, a);
            let id = arg(a, 0) as u32;
            let valid = (id == 0 || id == 1 || id == 255 || id == 1000) && arg(a, 1) != 0;
            let next = (m.audio_out2.next_user_handle + 1) % 0x1_0000_0000_0000_0000;
            &&& !valid ==> code == 0x8002_0016 && after == m
            &&& valid && mapped(m.mem, arg(a, 1) as int, 8) ==> code == 0
            &&& code == 0 ==> load_u64(after.mem, arg(a, 1) as int) == Some(next as u64)
                && after.audio_out2.next_user_handle == next
        }),
{
    let handle = m.audio_out2.next_user_handle.wrapping_add(1);
    lemma_put_u64_keeps(m.mem, arg(a, 1) as int, handle, 0, 0);
    if user_create(m, a).1 == 0 {
        law_read_back_u64(m.mem, arg(a, 1) as int, handle);
    }
}

/// A port that is destroyed is gone, and every other port stays as it was.
pub proof fn law_destroyed_port(m: Machine, a: Seq<u64>, k: u64)
    ensures
        ({
            let (after, code) = port_destroy(m, a);
            &&& code == 0
            &&& !after.audio_out2.ports.dom().contains(arg(a, 0))
            &&& k != arg(a, 0) ==> after.audio_out2.ports.dom().contains(k)
                == m.audio_out2.ports.dom().contains(k)
            &&& k != arg(a, 0) && m.audio_out2.ports.dom().contains(k) ==> port_of(after, k)
                == port_of(m, k)
            &&& after.audio_out2.contexts == m.audio_out2.contexts
        }),
        ({
            let (after, code) = context_destroy(m, a);
            &&& code == 0
            &&& !after.audio_out2.contexts.dom().contains(arg(a, 0))
            &&& k != arg(a, 0) && m.audio_out2.contexts.dom().contains(k) ==> {
                &&& after.audio_out2.contexts.dom().contains(k)
                &&& after.audio_out2.contexts[k] == m.audio_out2.contexts[k]
            }
        }),
{
}

/// The answer of an operation that returns a value.
pub open spec fn is_answer(after: Machine, reply: Reply, r: (Machine, u64)) -> bool {
    after == r.0 && reply is Return && reply->Return_0 == r.1
}

/// Every export is answered by its own operation; an advance only paces the context
/// that it names.
pub proof fn law_exports_answer(m: Machine, a: Seq<u64>, after: Machine, reply: Reply)
    ensures
        answers(AudioOut2Export::Accept, m, a, after, reply) == is_answer(after, reply, (m, 0)),
        answers(AudioOut2Export::ContextResetParam, m, a, after, reply) == is_answer(
            after,
            reply,
            context_reset_param(m, a),
        ),
        answers(AudioOut2Export::ContextQueryMemory, m, a, after, reply) == is_answer(
            after,
            reply,
            context_query_memory(m, a),
        ),
        answers(AudioOut2Export::ContextCreate, m, a, after, reply) == is_answer(
            after,
            reply,
            context_create(m, a),
        ),
        answers(AudioOut2Export::ContextDestroy, m, a, after, reply) == is_answer(
            after,
            reply,
            context_destroy(m, a),
        ),
        answers(AudioOut2Export::ContextAdvance, m, a, after, reply) == (after == m && reply == (
        Reply::Pace { context: arg(a, 0) })),
        answers(AudioOut2Export::PortSetAttributes, m, a, after, reply) == is_answer(
            after,
            reply,
            port_set_attributes(m, a),
        ),
        answers(AudioOut2Export::ContextGetQueueLevel, m, a, after, reply) == is_answer(
            after,
            reply,
            context_get_queue_level(m, a),
        ),
        answers(AudioOut2Export::PortCreate, m, a, after, reply) == is_answer(
            after,
            reply,
            port_create(m, a),
        ),
        answers(AudioOut2Export::PortGetState, m, a, after, reply) == is_answer(
            after,
            reply,
            port_get_state(m, a),
        ),
        answers(AudioOut2Export::GetSpeakerInfo, m, a, after, reply) == is_answer(
            after,
            reply,
            get_speaker_info(m, a),
        ),
        answers(AudioOut2Export::PortDestroy, m, a, after, reply) == is_answer(
            after,
            reply,
            port_destroy(m, a),
        ),
        answers(AudioOut2Export::UserCreate, m, a, after, reply) == is_answer(
            after,
            reply,
            user_create(m, a),
        ),
        answers(AudioOut2Export::ContextPush, m, a, after, reply) ==> {
            &&& after == m
            &&& reply is Push
            &&& reply->Push_context == arg(a, 0)
            &&& exists|order: Seq<u64>| pushed(m, arg(a, 0), order, reply->Push_audio)
        },
{
    if answers(AudioOut2Export::ContextPush, m, a, after, reply) {
        let order = choose|order: Seq<u64>| plays_in_order(m, a, order, reply);
        assert(pushed(m, arg(a, 0), order, reply->Push_audio));
    }
}

/// An operation that answers in memory does so where its answer fits, and otherwise
/// fails.
pub open spec fn fits_or_fails(m: Mem, at: u64, n: nat, code: u64) -> bool {
    &&& mapped(m, at as int, n) ==> code == 0
    &&& !mapped(m, at as int, n) ==> code == 0x8002_000E
}

/// The operations that answer in memory fail exactly where their answer does not fit.
pub proof fn law_answers_fit_or_fail(m: Machine, a: Seq<u64>)
    ensures
        arg(a, 0) != 0 ==> fits_or_fails(m.mem, arg(a, 0), 0x30, context_reset_param(m, a).1),
        arg(a, 0) != 0 && arg(a, 1) != 0 ==> fits_or_fails(
            m.mem,
            arg(a, 1),
            8,
            context_query_memory(m, a).1,
        ),
        arg(a, 1) != 0 ==> fits_or_fails(m.mem, arg(a, 1), 8, context_get_queue_level(m, a).1),
        arg(a, 0) != 0 ==> fits_or_fails(m.mem, arg(a, 0), 0x40, get_speaker_info(m, a).1),
        arg(a, 0) != 0 && arg(a, 1) != 0 ==> fits_or_fails(
            m.mem,
            arg(a, 1),
            0x20,
            port_get_state(m, a).1,
        ),
        user_create(m, a).1 != 0x8002_0016 ==> fits_or_fails(
            m.mem,
            arg(a, 1),
            8,
            user_create(m, a).1,
        ),
{
    lemma_put_u64_keeps(m.mem, arg(a, 1) as int, 0x1_0000, 0, 0);
    lemma_put_u64_keeps(m.mem, arg(a, 1) as int, 0, 0, 0);
    lemma_put_u64_keeps(
        m.mem,
        arg(a, 1) as int,
        m.audio_out2.next_user_handle.wrapping_add(1),
        0,
        0,
    );
}

/// A context without readable parameters is not kept; either way the other contexts
/// and every port stay as they are.
pub proof fn law_created_context_keeps_the_others(m: Machine, a: Seq<u64>, k: u64)
    ensures
        ({
            let (after, code) = context_create(m, a);
            let next = (m.audio_out2.next_context_handle + 1) % 0x1_0000_0000_0000_0000;
            &&& !mapped(m.mem, arg(a, 0) as int, 0x30) ==> after.audio_out2.contexts
                == m.audio_out2.contexts
            &&& k != next ==> after.audio_out2.contexts.dom().contains(k)
                == m.audio_out2.contexts.dom().contains(k)
            &&& k != next && m.audio_out2.contexts.dom().contains(k)
                ==> after.audio_out2.contexts[k] == m.audio_out2.contexts[k]
            &&& after.audio_out2.ports == m.audio_out2.ports
        }),
{
}

/// Attributes for no port, for an unknown port, or none at all change nothing.
pub proof fn law_ignored_attributes(m: Machine, a: Seq<u64>)
    requires
        arg(a, 0) == 0 || arg(a, 1) == 0 || arg(a, 2) == 0 || !m.audio_out2.ports.dom().contains(
            arg(a, 0),
        ),
    ensures
        port_set_attributes(m, a) == (m, 0u64),
{
}

proof fn lemma_last_named(m: Mem, attributes: u64, i: nat, n: nat, pcm: u64, k: int)
    requires
        i <= k < i + n,
        forall|j: int| i <= j < i + n ==> #[trigger] mapped(m, attributes + 24 * j, 24),
        names_samples(m, attributes, k),
        forall|j: int| k < j < i + n ==> !#[trigger] names_samples(m, attributes, j),
    ensures
        Some(pcm_pointer(m, attributes, i, n, pcm)) == load_u64(
            m,
            load_u64(m, attributes + 24 * k + 0x08)->0 as int,
        ),
    decreases n,
{
    let base = attributes + 24 * i;
    assert(mapped(m, attributes + 24 * (i as int), 24));
    let named = names_samples(m, attributes, i as int);
    let data = load_u64(m, load_u64(m, base + 0x08)->0 as int);
    let next = if named {
        data->0
    } else {
        pcm
    };
    assert(pcm_pointer(m, attributes, i, n, pcm) == pcm_pointer(
        m,
        attributes,
        i + 1,
        (n - 1) as nat,
        next,
    ));
    if k > i {
        lemma_last_named(m, attributes, i + 1, (n - 1) as nat, next, k);
    } else {
        lemma_attributes(m, attributes, i + 1, (n - 1) as nat, next);
    }
}

/// Of several attributes that name samples, the last counts; attributes behind it that
/// name none do not matter, nor does anything behind the first 64.
pub proof fn law_last_named_samples_count(m: Machine, a: Seq<u64>, k: int)
    requires
        arg(a, 0) != 0,
        arg(a, 1) != 0,
        m.audio_out2.ports.dom().contains(arg(a, 0)),
        0 <= k < arg(a, 2),
        k < 64,
        forall|j: int|
            0 <= j < arg(a, 2) && j < 64 ==> #[trigger] mapped(m.mem, arg(a, 1) + 24 * j, 24),
        names_samples(m.mem, arg(a, 1), k),
        forall|j: int|
            k < j < arg(a, 2) && j < 64 ==> !#[trigger] names_samples(m.mem, arg(a, 1), j),
    ensures
        Some(port_of(port_set_attributes(m, a).0, arg(a, 0)).pcm_ptr) == load_u64(
            m.mem,
            load_u64(m.mem, arg(a, 1) + 24 * k + 0x08)->0 as int,
        ),
{
    let n: nat = if arg(a, 2) < 64 {
        arg(a, 2) as nat
    } else {
        64
    };
    lemma_last_named(m.mem, arg(a, 1), 0, n, m.audio_out2.ports[arg(a, 0)].5, k);
}

} // verus!
