//! What the two libraries hand out, and what escaping leaves in memory.
use vstd::prelude::*;
use crate::agc::effects::{apart, lemma_kept_reads, lemma_put_keeps};
use crate::agc::fields::lemma_put_u64_keeps;
use crate::context::{arg, Machine};
use crate::libsce_http::{
    effect, ends_at, escaped, escaped_byte, http_uri_escape, text_at, law_escaped_alphabet,
    HttpExport,
};
use crate::mem::{
    law_put_keeps_mapping, law_read_back, law_read_back_u64, load, load_u64, mapped, put_u64, Mem,
};
use crate::registry::Reply;

verus! {

/// The machine behind a call of an export, and the value that the call returns.
pub open spec fn returned(e: HttpExport, m: Machine, a: Seq<u64>) -> (Machine, u64) {
    let (after, reply) = effect(e, m, a);
    (after, reply->Return_0)
}

/// A context is made for a pool that is not empty, under the next id; its templates
/// belong to it, and are made for known contexts only.
pub proof fn law_contexts_and_templates(m: Machine, a: Seq<u64>)
    ensures
        ({
            let (after, r) = returned(HttpExport::HttpInit, m, a);
            &&& arg(a, 2) == 0 ==> r == 0x8043_11FE && after == m
            &&& arg(a, 2) != 0 ==> {
                &&& r == (m.small.http_next_context + 1) % 0x1_0000_0000
                &&& after.http.contexts.dom().contains(r)
                &&& after.small.http_next_context == r
                &&& after.http.templates == m.http.templates && after.http.contexts2
                    == m.http.contexts2
            }
        }),
        ({
            let (after, r) = returned(HttpExport::HttpCreateTemplate, m, a);
            let context = (arg(a, 0) as u32) as u64;
            &&& !m.http.contexts.dom().contains(context) ==> r == 0x8043_1100 && after == m
            &&& m.http.contexts.dom().contains(context) ==> {
                &&& r == (m.small.http_next_template + 1) % 0x1_0000_0000
                &&& after.http.templates.dom().contains(r)
                &&& after.http.templates[r] == context
                &&& after.small.http_next_template == r
                &&& after.http.contexts == m.http.contexts
            }
        }),
        ({
            let (after, r) = returned(HttpExport::HttpDeleteTemplate, m, a);
            let id = (arg(a, 0) as u32) as u64;
            &&& !m.http.templates.dom().contains(id) ==> r == 0x8043_1100 && after == m
            &&& m.http.templates.dom().contains(id) ==> r == 0
                && !after.http.templates.dom().contains(id) && after.http.contexts
                == m.http.contexts
        }),
        ({
            let (after, r) = returned(HttpExport::HttpTerm, m, a);
            let id = (arg(a, 0) as u32) as u64;
            &&& !m.http.contexts.dom().contains(id) ==> r == 0x8043_1100 && after == m
            &&& m.http.contexts.dom().contains(id) ==> r == 0
                && !after.http.contexts.dom().contains(id)
        }),
{
}

/// The same of the second library, which also wants to know how many requests there
/// will be, at least one; it connects to nothing.
pub proof fn law_contexts_and_templates_2(m: Machine, a: Seq<u64>)
    ensures
        ({
            let (after, r) = returned(HttpExport::Http2Init, m, a);
            let most = arg(a, 3) as u32;
            let valid = arg(a, 2) != 0 && 1 <= most <= 0x7FFF_FFFF;
            &&& !valid ==> r == 0x8043_6016 && after == m
            &&& valid ==> {
                &&& r == (m.small.http2_next_context + 1) % 0x1_0000_0000
                &&& after.http.contexts2.dom().contains(r)
                &&& after.small.http2_next_context == r
                &&& after.http.contexts == m.http.contexts
            }
        }),
        ({
            let (after, r) = returned(HttpExport::Http2CreateTemplate, m, a);
            let context = (arg(a, 0) as u32) as u64;
            &&& !m.http.contexts2.dom().contains(context) ==> r == 0x8043_6004 && after == m
            &&& m.http.contexts2.dom().contains(context) ==> {
                &&& r == (m.small.http2_next_template + 1) % 0x1_0000_0000
                &&& after.http.templates2.dom().contains(r)
                &&& after.http.templates2[r] == context
                &&& after.http.contexts2 == m.http.contexts2
            }
        }),
        ({
            let (after, r) = returned(HttpExport::Http2Term, m, a);
            let id = (arg(a, 0) as u32) as u64;
            &&& !m.http.contexts2.dom().contains(id) ==> r == 0x8043_6004 && after == m
            &&& m.http.contexts2.dom().contains(id) ==> r == 0
                && !after.http.contexts2.dom().contains(id)
        }),
        ({
            let id = (arg(a, 0) as u32) as u64;
            let asked = effect(HttpExport::Http2CreateRequestWithUrl, m, a);
            &&& m.http.templates2.dom().contains(id) ==> asked == (m, Reply::Return(0x8043_6023))
            &&& !m.http.templates2.dom().contains(id) ==> asked == (m, Reply::Return(0x8043_6004))
        }),
{
}

/// What a byte becomes: letters, digits and `-_.~` stay, and every other is a
/// percent sign and two upper-case hexadecimal digits.
pub proof fn law_escaped_byte(c: u8)
    ensures
        ({
            let plain = 0x30 <= c <= 0x39 || 0x41 <= c <= 0x5A || 0x61 <= c <= 0x7A || c == 0x2D || c
                == 0x2E || c == 0x5F || c == 0x7E;
            &&& plain ==> escaped(seq![c]) == seq![c]
            &&& !plain ==> escaped(seq![c]) == seq![
                0x25u8,
                (if c < 0xA0 {
                    0x30 + c as int / 16
                } else {
                    0x37 + c as int / 16
                }) as u8,
                (if c as int % 16 < 10 {
                    0x30 + c as int % 16
                } else {
                    0x37 + c as int % 16
                }) as u8,
            ]
        }),
{
    reveal_with_fuel(escaped, 2);
    assert(seq![c].drop_last() =~= Seq::<u8>::empty());
    assert(escaped(seq![c]) =~= escaped_byte(c));
}

/// Escaping goes byte by byte.
pub proof fn law_escaping_concatenates(s: Seq<u8>, t: Seq<u8>)
    ensures
        escaped(s + t) == escaped(s) + escaped(t),
    decreases t.len(),
{
    if t.len() == 0 {
        assert(s + t =~= s);
        assert(escaped(s) + escaped(t) =~= escaped(s));
    } else {
        law_escaping_concatenates(s, t.drop_last());
        assert((s + t).drop_last() =~= s + t.drop_last());
        assert((s + t).last() == t.last());
        assert(escaped(s + t) =~= escaped(s) + escaped(t));
    }
}

proof fn lemma_one_end(m: Mem, a: int, n: nat, k: nat)
    requires
        ends_at(m, a, n),
        ends_at(m, a, k),
    ensures
        n == k,
{
    if n < k {
        assert(m[a + n as int] != 0);
    }
    if k < n {
        assert(m[a + k as int] != 0);
    }
}

/// An escape of the text at the fourth argument leaves its escaped form, and a zero
/// behind it, at the first, and their length at the second, where these are not
/// null; a buffer that is too small for them gets nothing but the length. The text
/// ends at its first zero. (The two places are apart.)
pub proof fn law_escaped_text_is_stored(m: Machine, a: Seq<u64>, n: nat)
    requires
        arg(a, 3) != 0,
        ends_at(m.mem, arg(a, 3) as int, n),
        arg(a, 1) != 0 ==> mapped(m.mem, arg(a, 1) as int, 8),
    ensures
        ({
            let (after, r) = returned(HttpExport::HttpUriEscape, m, a);
            let text = Seq::new(n, |i: int| m.mem[arg(a, 3) + i]);
            let e = escaped(text).push(0u8);
            let out = arg(a, 0) as int;
            &&& out == 0 ==> r == 0
            &&& out != 0 && arg(a, 2) < e.len() ==> r == 0x8043_1104
            &&& out != 0 && arg(a, 2) >= e.len() && mapped(m.mem, out, e.len()) ==> r == 0
            &&& out != 0 && r == 0 ==> load(after.mem, out, e.len()) == Some(e)
            &&& arg(a, 1) != 0 && (out == 0 || apart(arg(a, 1) as int, 8, out, e.len() as int))
                ==> load_u64(after.mem, arg(a, 1) as int) == Some(e.len() as u64)
        }),
{
    let t = arg(a, 3) as int;
    let text = Seq::new(n, |i: int| m.mem[t + i]);
    let k = choose|k: nat| ends_at(m.mem, t, k);
    lemma_one_end(m.mem, t, n, k);
    assert(text_at(m.mem, t)->0 =~= text);
    law_escaped_alphabet(text);
    let e = escaped(text).push(0u8);
    let size = arg(a, 1) as int;
    let out = arg(a, 0) as int;
    lemma_put_u64_keeps(m.mem, size, e.len() as u64, out, e.len());
    let m2 = if size != 0 {
        put_u64(m.mem, size, e.len() as u64).0
    } else {
        m.mem
    };
    law_put_keeps_mapping(m2, out, e);
    if size != 0 {
        law_read_back_u64(m.mem, size, e.len() as u64);
    }
    let (after, r) = http_uri_escape(m, a);
    if out != 0 && r == 0 {
        law_read_back(m2, out, e);
        if size != 0 && apart(size, 8, out, e.len() as int) {
            lemma_put_keeps(m2, out, e, size, 8);
            lemma_kept_reads(m2, after.mem, size, 8, size, 8);
        }
    }
}

/// An escape without a readable text, or whose size has nowhere to go, is refused and
/// changes nothing; one whose text has nowhere to go fails, with its size stored.
pub proof fn law_refused_escape(m: Machine, a: Seq<u64>)
    ensures
        ({
            let (after, r) = returned(HttpExport::HttpUriEscape, m, a);
            let size = arg(a, 1) as int;
            let text = text_at(m.mem, arg(a, 3) as int);
            &&& arg(a, 3) == 0 || text is None ==> r == 0x8043_11FE && after == m
            &&& size != 0 && !mapped(m.mem, size, 8) ==> r == 0x8043_11FE && after == m
            &&& arg(a, 3) != 0 && text is Some && (size == 0 || mapped(m.mem, size, 8)) && arg(a, 0)
                != 0 && arg(a, 2) > escaped(text->0).len() && !mapped(
                m.mem,
                arg(a, 0) as int,
                escaped(text->0).len() + 1,
            ) ==> r == 0x8043_11FE
        }),
{
    let size = arg(a, 1) as int;
    if let Some(text) = text_at(m.mem, arg(a, 3) as int) {
        let e = escaped(text).push(0);
        lemma_put_u64_keeps(m.mem, size, e.len() as u64, arg(a, 0) as int, e.len());
    }
}

/// What stands under `k` is the same in both tables.
pub open spec fn same_at(before: Map<u64, u64>, after: Map<u64, u64>, k: u64) -> bool {
    &&& after.dom().contains(k) == before.dom().contains(k)
    &&& before.dom().contains(k) ==> after[k] == before[k]
}

/// A call leaves every context and template that it is not about as it was, and a new
/// context remembers the pool that it was made for.
pub proof fn law_other_contexts_stay(m: Machine, a: Seq<u64>, k: u64)
    ensures
        ({
            let id = (arg(a, 0) as u32) as u64;
            let (init, context) = returned(HttpExport::HttpInit, m, a);
            let (made, template) = returned(HttpExport::HttpCreateTemplate, m, a);
            let deleted = returned(HttpExport::HttpDeleteTemplate, m, a).0;
            let ended = returned(HttpExport::HttpTerm, m, a).0;
            &&& arg(a, 2) != 0 ==> init.http.contexts[context] == arg(a, 2)
            &&& k != context ==> same_at(m.http.contexts, init.http.contexts, k)
            &&& k != template ==> same_at(m.http.templates, made.http.templates, k)
            &&& k != id ==> same_at(m.http.templates, deleted.http.templates, k)
            &&& k != id ==> same_at(m.http.contexts, ended.http.contexts, k)
            &&& m.http.templates.dom().contains(k) && m.http.templates[k] != id ==> same_at(
                m.http.templates,
                ended.http.templates,
                k,
            )
        }),
        ({
            let id = (arg(a, 0) as u32) as u64;
            let (init, context) = returned(HttpExport::Http2Init, m, a);
            let (made, template) = returned(HttpExport::Http2CreateTemplate, m, a);
            let ended = returned(HttpExport::Http2Term, m, a).0;
            &&& init != m ==> init.http.contexts2[context] == arg(a, 2)
            &&& k != context ==> same_at(m.http.contexts2, init.http.contexts2, k)
            &&& k != template ==> same_at(m.http.templates2, made.http.templates2, k)
            &&& made != m ==> made.small.http2_next_template == template
            &&& k != id ==> same_at(m.http.contexts2, ended.http.contexts2, k)
            &&& m.http.templates2.dom().contains(k) && m.http.templates2[k] != id ==> same_at(
                m.http.templates2,
                ended.http.templates2,
                k,
            )
        }),
{
}

/// The text at an address: the bytes before its first zero, if that comes before
/// 65600 bytes and the 64-byte piece that it stands in is readable.
pub proof fn law_text_is_found(m: Mem, at: int, n: nat)
    requires
        m[at + n] == 0,
        forall|i: int| 0 <= i < n ==> #[trigger] m[at + i] != 0,
    ensures
        n < 65600 && mapped(m, at, (64 * (n / 64 + 1)) as nat) ==> text_at(m, at) == Some(
            Seq::new(n, |i: int| m[at + i]),
        ),
        n >= 65600 || !mapped(m, at, (64 * (n / 64 + 1)) as nat) ==> text_at(m, at) is None,
{
    assert forall|k: nat| ends_at(m, at, k) implies k == n by {
        if k < n {
            assert(m[at + k] != 0);
        } else if k > n {
            assert(m[at + n] != 0);
        }
    }
    if n < 65600 && mapped(m, at, (64 * (n / 64 + 1)) as nat) {
        assert(ends_at(m, at, n));
    }
}

} // verus!
