//! libSceHttp and libSceHttp2: the lifecycle of contexts and templates.
//!
//! There is no network behind the library: contexts and templates are kept in
//! full, and a request is refused before it could be sent. Percent-encoding is
//! local work and is done.
use vstd::prelude::*;
use crate::agc::packet::{lo, lo32};
use crate::context::{arg, get_arg, HleContext, Http, Machine, SmallState, OK};
use crate::mem::{mapped, GuestMemory, Mem};
use crate::registry::{
    Export, Handler, HleRegistry, Outcome, Registry, Reply, returns_value, with_exports,
};

pub mod laws;

verus! {

pub const HTTP_ERROR_INVALID_ID: u64 = 0x8043_1100;

pub const HTTP_ERROR_OUT_OF_SIZE: u64 = 0x8043_1104;

pub const HTTP_ERROR_INVALID_VALUE: u64 = 0x8043_11FE;

pub const HTTP2_ERROR_INVALID_ID: u64 = 0x8043_6004;

pub const HTTP2_ERROR_INVALID_ARGUMENT: u64 = 0x8043_6016;

pub const HTTP2_ERROR_CANNOT_CONNECT: u64 = 0x8043_6023;

/// Strings are read in pieces of this many bytes.
pub const PIECE: usize = 64;

/// A string may go on for this many bytes before its last piece.
pub const URI_ESCAPE_MAX_INPUT: usize = 65536;

/// The 32-bit id of an argument.
pub open spec fn id_of(v: u64) -> u64 {
    lo(v) as u64
}

/// Create a context over a memory pool. Ids count up modulo 2^32.
pub open spec fn http_init(m: Machine, a: Seq<u64>) -> (Machine, u64) {
    let id = m.small.http_next_context.wrapping_add(1);
    if arg(a, 2) == 0 {
        (m, HTTP_ERROR_INVALID_VALUE)
    } else {
        (
            Machine {
                small: SmallState { http_next_context: id, ..m.small },
                http: Http { contexts: m.http.contexts.insert(id as u64, arg(a, 2)), ..m.http },
                ..m
            },
            id as u64,
        )
    }
}

/// `sceHttpInit(netMemoryId, sslContextId, poolSize)`.
pub fn hle_http_init(ctx: &mut HleContext, args: &[u64]) -> (r: u64)
    ensures
        final(ctx)@ == http_init(old(ctx)@, args@).0,
        r == http_init(old(ctx)@, args@).1,
{
    let pool: u64 = get_arg(args, 2);
    if pool == 0 {
        return HTTP_ERROR_INVALID_VALUE;
    }
    let id: u32 = ctx.kernel.small.http_next_context.wrapping_add(1);
    ctx.kernel.small.http_next_context = id;
    ctx.kernel.http_contexts.insert(id as u64, pool);
    id as u64
}

/// Create a template that belongs to a context.
pub open spec fn http_create_template(m: Machine, a: Seq<u64>) -> (Machine, u64) {
    let id = m.small.http_next_template.wrapping_add(1);
    if !m.http.contexts.dom().contains(id_of(arg(a, 0))) {
        (m, HTTP_ERROR_INVALID_ID)
    } else {
        (
            Machine {
                small: SmallState { http_next_template: id, ..m.small },
                http: Http {
                    templates: m.http.templates.insert(id as u64, id_of(arg(a, 0))),
                    ..m.http
                },
                ..m
            },
            id as u64,
        )
    }
}

/// `sceHttpCreateTemplate(contextId, userAgent, httpVersion, autoProxyConfig)`.
pub fn hle_http_create_template(ctx: &mut HleContext, args: &[u64]) -> (r: u64)
    ensures
        final(ctx)@ == http_create_template(old(ctx)@, args@).0,
        r == http_create_template(old(ctx)@, args@).1,
{
    let context: u64 = lo32(get_arg(args, 0)) as u64;
    if !ctx.kernel.http_contexts.contains(context) {
        return HTTP_ERROR_INVALID_ID;
    }
    let id: u32 = ctx.kernel.small.http_next_template.wrapping_add(1);
    ctx.kernel.small.http_next_template = id;
    ctx.kernel.http_templates.insert(id as u64, context);
    id as u64
}

/// Delete a template.
pub open spec fn http_delete_template(m: Machine, a: Seq<u64>) -> (Machine, u64) {
    let id = id_of(arg(a, 0));
    if m.http.templates.dom().contains(id) {
        (Machine { http: Http { templates: m.http.templates.remove(id), ..m.http }, ..m }, OK)
    } else {
        (m, HTTP_ERROR_INVALID_ID)
    }
}

/// `sceHttpDeleteTemplate(templateId)`.
pub fn hle_http_delete_template(ctx: &mut HleContext, args: &[u64]) -> (r: u64)
    ensures
        final(ctx)@ == http_delete_template(old(ctx)@, args@).0,
        r == http_delete_template(old(ctx)@, args@).1,
{
    let id: u64 = lo32(get_arg(args, 0)) as u64;
    let ghost before = ctx@;
    if ctx.kernel.http_templates.remove(id) {
        OK
    } else {
        assert(before.http.templates.remove(id) =~= before.http.templates);
        HTTP_ERROR_INVALID_ID
    }
}

/// The templates that do not belong to `context`.
pub open spec fn without(templates: Map<u64, u64>, context: u64) -> Map<u64, u64> {
    templates.remove_keys(
        Set::new(|k: u64| templates.dom().contains(k) && templates[k] == context),
    )
}

/// Delete a context and every template that belongs to it.
pub open spec fn http_term(m: Machine, a: Seq<u64>) -> (Machine, u64) {
    let id = id_of(arg(a, 0));
    if m.http.contexts.dom().contains(id) {
        (
            Machine {
                http: Http {
                    contexts: m.http.contexts.remove(id),
                    templates: without(m.http.templates, id),
                    ..m.http
                },
                ..m
            },
            OK,
        )
    } else {
        (m, HTTP_ERROR_INVALID_ID)
    }
}

/// `sceHttpTerm(contextId)`.
pub fn hle_http_term(ctx: &mut HleContext, args: &[u64]) -> (r: u64)
    ensures
        final(ctx)@ == http_term(old(ctx)@, args@).0,
        r == http_term(old(ctx)@, args@).1,
{
    let id: u64 = lo32(get_arg(args, 0)) as u64;
    let ghost before = ctx@;
    if !ctx.kernel.http_contexts.remove(id) {
        assert(before.http.contexts.remove(id) =~= before.http.contexts);
        return HTTP_ERROR_INVALID_ID;
    }
    ctx.kernel.http_templates.remove_value(id);
    assert(ctx@.http.templates =~= without(before.http.templates, id));
    OK
}

/// Create a context of the second library.
pub open spec fn http2_init(m: Machine, a: Seq<u64>) -> (Machine, u64) {
    let id = m.small.http2_next_context.wrapping_add(1);
    let most = lo(arg(a, 3));
    if arg(a, 2) == 0 || most == 0 || most >= 0x8000_0000 {
        (m, HTTP2_ERROR_INVALID_ARGUMENT)
    } else {
        (
            Machine {
                small: SmallState { http2_next_context: id, ..m.small },
                http: Http { contexts2: m.http.contexts2.insert(id as u64, arg(a, 2)), ..m.http },
                ..m
            },
            id as u64,
        )
    }
}

/// `sceHttp2Init(netId, sslId, poolSize, maxRequests)`: the number of requests
/// is a signed number that must be positive.
pub fn hle_http2_init(ctx: &mut HleContext, args: &[u64]) -> (r: u64)
    ensures
        final(ctx)@ == http2_init(old(ctx)@, args@).0,
        r == http2_init(old(ctx)@, args@).1,
{
    let pool: u64 = get_arg(args, 2);
    let most: u32 = lo32(get_arg(args, 3));
    if pool == 0 || most == 0 || most >= 0x8000_0000 {
        return HTTP2_ERROR_INVALID_ARGUMENT;
    }
    let id: u32 = ctx.kernel.small.http2_next_context.wrapping_add(1);
    ctx.kernel.small.http2_next_context = id;
    ctx.kernel.http2_contexts.insert(id as u64, pool);
    id as u64
}

/// Create a template of the second library.
pub open spec fn http2_create_template(m: Machine, a: Seq<u64>) -> (Machine, u64) {
    let id = m.small.http2_next_template.wrapping_add(1);
    if !m.http.contexts2.dom().contains(id_of(arg(a, 0))) {
        (m, HTTP2_ERROR_INVALID_ID)
    } else {
        (
            Machine {
                small: SmallState { http2_next_template: id, ..m.small },
                http: Http {
                    templates2: m.http.templates2.insert(id as u64, id_of(arg(a, 0))),
                    ..m.http
                },
                ..m
            },
            id as u64,
        )
    }
}

/// `sceHttp2CreateTemplate(contextId, userAgent, httpVersion, autoProxyConfig)`.
pub fn hle_http2_create_template(ctx: &mut HleContext, args: &[u64]) -> (r: u64)
    ensures
        final(ctx)@ == http2_create_template(old(ctx)@, args@).0,
        r == http2_create_template(old(ctx)@, args@).1,
{
    let context: u64 = lo32(get_arg(args, 0)) as u64;
    if !ctx.kernel.http2_contexts.contains(context) {
        return HTTP2_ERROR_INVALID_ID;
    }
    let id: u32 = ctx.kernel.small.http2_next_template.wrapping_add(1);
    ctx.kernel.small.http2_next_template = id;
    ctx.kernel.http2_templates.insert(id as u64, context);
    id as u64
}

/// `sceHttp2CreateRequestWithURL(templateId, method, url, contentLength)`: a
/// request that could never be sent is not handed out.
pub fn hle_http2_create_request_with_url(ctx: &HleContext, args: &[u64]) -> (r: u64)
    ensures
        r == (if ctx@.http.templates2.dom().contains(id_of(arg(args@, 0))) {
            HTTP2_ERROR_CANNOT_CONNECT
        } else {
            HTTP2_ERROR_INVALID_ID
        }),
{
    if !ctx.kernel.http2_templates.contains(lo32(get_arg(args, 0)) as u64) {
        return HTTP2_ERROR_INVALID_ID;
    }
    HTTP2_ERROR_CANNOT_CONNECT
}

/// Delete a context of the second library and every template that belongs to
/// it.
pub open spec fn http2_term(m: Machine, a: Seq<u64>) -> (Machine, u64) {
    let id = id_of(arg(a, 0));
    if m.http.contexts2.dom().contains(id) {
        (
            Machine {
                http: Http {
                    contexts2: m.http.contexts2.remove(id),
                    templates2: without(m.http.templates2, id),
                    ..m.http
                },
                ..m
            },
            OK,
        )
    } else {
        (m, HTTP2_ERROR_INVALID_ID)
    }
}

/// `sceHttp2Term(contextId)`.
pub fn hle_http2_term(ctx: &mut HleContext, args: &[u64]) -> (r: u64)
    ensures
        final(ctx)@ == http2_term(old(ctx)@, args@).0,
        r == http2_term(old(ctx)@, args@).1,
{
    let id: u64 = lo32(get_arg(args, 0)) as u64;
    let ghost before = ctx@;
    if !ctx.kernel.http2_contexts.remove(id) {
        assert(before.http.contexts2.remove(id) =~= before.http.contexts2);
        return HTTP2_ERROR_INVALID_ID;
    }
    ctx.kernel.http2_templates.remove_value(id);
    assert(ctx@.http.templates2 =~= without(before.http.templates2, id));
    OK
}

/// Terminating a context takes its own templates with it and no others, and the
/// context is gone.
pub proof fn law_term_takes_its_templates(m: Machine, a: Seq<u64>, t: u64)
    requires
        http_term(m, a).1 == OK,
    ensures
        http_term(m, a).0.http.templates.dom().contains(t) <==> m.http.templates.dom().contains(t)
            && m.http.templates[t] != id_of(arg(a, 0)),
        http_term(m, a).0.http.templates.dom().contains(t) ==> http_term(m, a).0.http.templates[t]
            == m.http.templates[t],
        http_term(http_term(m, a).0, a).1 == HTTP_ERROR_INVALID_ID,
        http_create_template(http_term(m, a).0, a).1 == HTTP_ERROR_INVALID_ID,
{
}

/// The same of the second library.
pub proof fn law_term2_takes_its_templates(m: Machine, a: Seq<u64>, t: u64)
    requires
        http2_term(m, a).1 == OK,
    ensures
        http2_term(m, a).0.http.templates2.dom().contains(t) <==> m.http.templates2.dom().contains(t)
            && m.http.templates2[t] != id_of(arg(a, 0)),
        http2_term(m, a).0.http.templates2.dom().contains(t)
            ==> http2_term(m, a).0.http.templates2[t] == m.http.templates2[t],
        http2_term(http2_term(m, a).0, a).1 == HTTP2_ERROR_INVALID_ID,
        http2_create_template(http2_term(m, a).0, a).1 == HTTP2_ERROR_INVALID_ID,
{
}

/// No id above the last one that was handed out is in use, and every template
/// belongs to a context.
pub open spec fn http_ordered(m: Machine) -> bool {
    &&& forall|k: u64| #[trigger]
        m.http.contexts.dom().contains(k) ==> k <= m.small.http_next_context
    &&& forall|k: u64| #[trigger]
        m.http.templates.dom().contains(k) ==> k <= m.small.http_next_template
            && m.http.contexts.dom().contains(m.http.templates[k])
}

/// A fresh process is ordered.
pub proof fn law_fresh_process_is_ordered(m: Machine)
    requires
        m.http.contexts.dom().is_empty(),
        m.http.templates.dom().is_empty(),
    ensures
        http_ordered(m),
{
    assert forall|k: u64| #![trigger m.http.contexts.dom().contains(k)]
        !m.http.contexts.dom().contains(k) by {}
    assert forall|k: u64| #![trigger m.http.templates.dom().contains(k)]
        !m.http.templates.dom().contains(k) by {}
}

/// As long as the ids have not wrapped around, every call keeps that order, and
/// the ids that are handed out are new.
pub proof fn law_ids_are_new(m: Machine, a: Seq<u64>)
    requires
        http_ordered(m),
        m.small.http_next_context < u32::MAX,
        m.small.http_next_template < u32::MAX,
    ensures
        http_ordered(http_init(m, a).0),
        arg(a, 2) != 0 ==> !m.http.contexts.dom().contains(http_init(m, a).1),
        http_ordered(http_create_template(m, a).0),
        m.http.contexts.dom().contains(id_of(arg(a, 0))) ==> !m.http.templates.dom().contains(
            http_create_template(m, a).1,
        ),
        http_ordered(http_delete_template(m, a).0),
        http_ordered(http_term(m, a).0),
{
    let c = m.small.http_next_context.wrapping_add(1) as u64;
    assert(!m.http.contexts.dom().contains(c));
    let t = m.small.http_next_template.wrapping_add(1) as u64;
    assert(!m.http.templates.dom().contains(t));
}

/// Bytes that stand for themselves.
pub open spec fn unreserved(c: u8) -> bool {
    ||| 0x30 <= c <= 0x39
    ||| 0x41 <= c <= 0x5A
    ||| 0x61 <= c <= 0x7A
    ||| c == 0x2D || c == 0x5F || c == 0x2E || c == 0x7E
}

/// The hexadecimal digit of a number below sixteen.
pub open spec fn hex_digit(n: int) -> u8 {
    if n < 10 {
        (0x30 + n) as u8
    } else {
        (0x37 + n) as u8
    }
}

/// What one byte becomes: itself, or a percent sign and two digits.
pub open spec fn escaped_byte(c: u8) -> Seq<u8> {
    if unreserved(c) {
        seq![c]
    } else {
        seq![0x25u8, hex_digit(c as int / 16), hex_digit(c as int % 16)]
    }
}

/// What a string becomes.
pub open spec fn escaped(s: Seq<u8>) -> Seq<u8>
    decreases s.len(),
{
    if s.len() == 0 {
        Seq::empty()
    } else {
        escaped(s.drop_last()) + escaped_byte(s.last())
    }
}

/// A string of `n` bytes ends at its NUL: every piece up to that one can be
/// read, and the string is not too long.
pub open spec fn ends_at(m: Mem, a: int, n: nat) -> bool {
    &&& n < URI_ESCAPE_MAX_INPUT + PIECE
    &&& mapped(m, a, (PIECE * (n / PIECE as nat + 1)) as nat)
    &&& m[a + n] == 0
    &&& forall|i: int| 0 <= i < n ==> #[trigger] m[a + i] != 0
}

/// The string at `a`, without its NUL.
pub open spec fn text_at(m: Mem, a: int) -> Option<Seq<u8>> {
    if exists|n: nat| ends_at(m, a, n) {
        Some(Seq::new(choose|n: nat| ends_at(m, a, n), |i: int| m[a + i]))
    } else {
        None
    }
}

/// Escape the string at argument 3. The size that the result needs, terminator
/// counted, goes to argument 1 and the result to argument 0, each unless it is
/// null.
pub open spec fn http_uri_escape(m: Machine, a: Seq<u64>) -> (Machine, u64) {
    let text = text_at(m.mem, arg(a, 3) as int);
    if arg(a, 3) == 0 || text is None {
        (m, HTTP_ERROR_INVALID_VALUE)
    } else {
        let e = escaped(text->0).push(0);
        let (m1, sized) = m.put_u64(arg(a, 1) as int, e.len() as u64);
        if arg(a, 1) != 0 && !sized {
            (m, HTTP_ERROR_INVALID_VALUE)
        } else {
            let m2 = if arg(a, 1) != 0 {
                m1
            } else {
                m
            };
            let (m3, written) = m2.put(arg(a, 0) as int, e);
            if arg(a, 0) == 0 {
                (m2, OK)
            } else if arg(a, 2) < e.len() {
                (m2, HTTP_ERROR_OUT_OF_SIZE)
            } else if !written {
                (m2, HTTP_ERROR_INVALID_VALUE)
            } else {
                (m3, OK)
            }
        }
    }
}

/// Read the string at `a`.
fn read_text(mem: &GuestMemory, a: u64) -> (r: Option<Vec<u8>>)
    ensures
        r is Some == text_at(mem@, a as int) is Some,
        r is Some ==> r->0@ == text_at(mem@, a as int)->0,
        r is Some ==> r->0@.len() < URI_ESCAPE_MAX_INPUT + PIECE,
{
    let mut out: Vec<u8> = Vec::new();
    let ghost m = mem@;
    let ghost base = a as int;
    let mut k: u64 = 0;
    loop
        invariant
            m == mem@,
            base == a,
            out@.len() == 64 * k,
            k <= 1024,
            mapped(m, base, (64 * k) as nat),
            forall|i: int| 0 <= i < out@.len() ==> #[trigger] out@[i] == m[base + i],
            forall|i: int| 0 <= i < out@.len() ==> #[trigger] m[base + i] != 0,
        decreases 1025 - k,
    {
        match mem.read(a, 64 * k, PIECE) {
            None => {
                assert forall|n: nat| !ends_at(m, base, n) by {
                    if ends_at(m, base, n) {
                        if n < 64 * k {
                            assert(m[base + n] != 0);
                        }
                        assert(mapped(m, base + 64 * k, 64));
                    }
                }
                return None;
            },
            Some(piece) => {
                assert forall|i: int| 0 <= i < 64 implies #[trigger] piece@[i] == m[base + (64 * k
                    + i)] by {
                    assert(base + (64 * k + i) == base + 64 * k + i);
                }
                assert(mapped(m, base, (64 * k + 64) as nat)) by {
                    assert forall|i: int| base <= i < base + (64 * k + 64) implies #[trigger] m.dom().contains(i) by {
                        assert(mapped(m, base + 64 * k, 64));
                    }
                }
                let mut j: usize = 0;
                while j < PIECE
                    invariant
                        m == mem@,
                        base == a,
                        k <= 1024,
                        j <= 64,
                        piece@.len() == 64,
                        out@.len() == 64 * k + j,
                        mapped(m, base, (64 * k + 64) as nat),
                        forall|i: int| 0 <= i < 64 ==> #[trigger] piece@[i] == m[base + (64 * k + i)],
                        forall|i: int| 0 <= i < out@.len() ==> #[trigger] out@[i] == m[base + i],
                        forall|i: int| 0 <= i < out@.len() ==> #[trigger] m[base + i] != 0,
                    decreases 64 - j,
                {
                    let b: u8 = piece[j];
                    if b == 0 {
                        proof {
                            let n = (64 * k + j) as nat;
                            assert(m[base + n] == 0);
                            assert(n / 64 == k);
                            assert(ends_at(m, base, n));
                            let c = choose|c: nat| ends_at(m, base, c);
                            assert(ends_at(m, base, c));
                            if c < n {
                                assert(m[base + c] != 0);
                            }
                            if n < c {
                                assert(m[base + n] != 0);
                            }
                            assert(out@ =~= Seq::new(c, |i: int| m[base + i]));
                        }
                        return Some(out);
                    }
                    out.push(b);
                    j += 1;
                }
                if out.len() > URI_ESCAPE_MAX_INPUT {
                    assert forall|n: nat| !ends_at(m, base, n) by {
                        if ends_at(m, base, n) {
                            assert(m[base + n] != 0);
                        }
                    }
                    return None;
                }
                k += 1;
            },
        }
    }
}

/// Escape a string.
fn escape_bytes(s: &[u8]) -> (r: Vec<u8>)
    requires
        s@.len() <= URI_ESCAPE_MAX_INPUT + PIECE,
    ensures
        r@ == escaped(s@),
        r@.len() <= 3 * s@.len(),
{
    let mut out: Vec<u8> = Vec::new();
    let mut i: usize = 0;
    assert(s@.take(0) =~= Seq::<u8>::empty());
    while i < s.len()
        invariant
            i <= s@.len(),
            s@.len() <= URI_ESCAPE_MAX_INPUT + PIECE,
            out@ == escaped(s@.take(i as int)),
            out@.len() <= 3 * i,
        decreases s@.len() - i,
    {
        let c: u8 = s[i];
        proof {
            assert(s@.take(i + 1).drop_last() =~= s@.take(i as int));
            assert(s@.take(i + 1).last() == c);
        }
        if is_unreserved(c) {
            out.push(c);
        } else {
            out.push(0x25);
            out.push(digit(c / 16));
            out.push(digit(c % 16));
        }
        assert(out@ =~= escaped(s@.take(i as int)) + escaped_byte(c));
        i += 1;
    }
    assert(s@.take(i as int) =~= s@);
    out
}

fn is_unreserved(c: u8) -> (r: bool)
    ensures
        r == unreserved(c),
{
    (0x30 <= c && c <= 0x39) || (0x41 <= c && c <= 0x5A) || (0x61 <= c && c <= 0x7A) || c == 0x2D || c
        == 0x5F || c == 0x2E || c == 0x7E
}

fn digit(n: u8) -> (r: u8)
    requires
        n < 16,
    ensures
        r == hex_digit(n as int),
{
    if n < 10 {
        0x30 + n
    } else {
        0x37 + n
    }
}

/// `sceHttpUriEscape(out, require, prepare, in)`.
pub fn hle_http_uri_escape(ctx: &mut HleContext, args: &[u64]) -> (r: u64)
    ensures
        final(ctx)@ == http_uri_escape(old(ctx)@, args@).0,
        r == http_uri_escape(old(ctx)@, args@).1,
{
    let out: u64 = get_arg(args, 0);
    let require: u64 = get_arg(args, 1);
    let input: u64 = get_arg(args, 3);
    if input == 0 {
        return HTTP_ERROR_INVALID_VALUE;
    }
    let text: Vec<u8> = match read_text(&ctx.mem, input) {
        None => {
            return HTTP_ERROR_INVALID_VALUE;
        },
        Some(t) => t,
    };
    let mut e: Vec<u8> = escape_bytes(text.as_slice());
    e.push(0);
    if require != 0 && !ctx.mem.write_u64(require, 0, e.len() as u64) {
        return HTTP_ERROR_INVALID_VALUE;
    }
    if out == 0 {
        return OK;
    }
    if get_arg(args, 2) < e.len() as u64 {
        return HTTP_ERROR_OUT_OF_SIZE;
    }
    if !ctx.mem.write(out, 0, e.as_slice()) {
        return HTTP_ERROR_INVALID_VALUE;
    }
    OK
}

/// The number of a hexadecimal digit.
pub open spec fn digit_value(c: u8) -> int {
    if c < 0x41 {
        c - 0x30
    } else {
        c - 0x37
    }
}

/// The string that an escaped string stands for.
pub open spec fn unescaped(t: Seq<u8>) -> Seq<u8>
    decreases t.len(),
{
    if t.len() == 0 {
        Seq::empty()
    } else if t[0] == 0x25 && t.len() >= 3 {
        seq![(16 * digit_value(t[1]) + digit_value(t[2])) as u8] + unescaped(t.skip(3))
    } else {
        seq![t[0]] + unescaped(t.skip(1))
    }
}

proof fn lemma_escaped_front(c: u8, s: Seq<u8>)
    ensures
        escaped(seq![c] + s) == escaped_byte(c) + escaped(s),
    decreases s.len(),
{
    let t = seq![c] + s;
    if s.len() == 0 {
        assert(t.drop_last() =~= Seq::<u8>::empty());
        assert(escaped(t.drop_last()) =~= Seq::<u8>::empty());
        assert(escaped(t) =~= escaped_byte(c) + escaped(s));
    } else {
        lemma_escaped_front(c, s.drop_last());
        assert(t.drop_last() =~= seq![c] + s.drop_last());
        assert(escaped(t) =~= escaped_byte(c) + escaped(s));
    }
}

proof fn lemma_unescaped_front(c: u8, t: Seq<u8>)
    ensures
        unescaped(escaped_byte(c) + t) == seq![c] + unescaped(t),
{
    let u = escaped_byte(c) + t;
    if unreserved(c) {
        assert(u.skip(1) =~= t);
    } else {
        assert(u.skip(3) =~= t);
    }
}

/// Escaping loses nothing: the string can be had back.
pub proof fn law_escaping_is_reversible(s: Seq<u8>)
    ensures
        unescaped(escaped(s)) == s,
    decreases s.len(),
{
    if s.len() > 0 {
        let rest = s.drop_first();
        law_escaping_is_reversible(rest);
        lemma_escaped_front(s[0], rest);
        lemma_unescaped_front(s[0], escaped(rest));
        assert(seq![s[0]] + rest =~= s);
    }
}

/// An escaped string is made of unreserved bytes and percent signs, and is at
/// most three times as long; a string of unreserved bytes stays as it is.
pub proof fn law_escaped_alphabet(s: Seq<u8>)
    ensures
        forall|i: int|
            0 <= i < escaped(s).len() ==> unreserved(#[trigger] escaped(s)[i]) || escaped(s)[i] == 0x25,
        s.len() <= escaped(s).len() <= 3 * s.len(),
        (forall|i: int| 0 <= i < s.len() ==> unreserved(#[trigger] s[i])) ==> escaped(s) == s,
    decreases s.len(),
{
    if s.len() > 0 {
        law_escaped_alphabet(s.drop_last());
        assert(s.drop_last().push(s.last()) =~= s);
        if forall|i: int| 0 <= i < s.len() ==> unreserved(#[trigger] s[i]) {
            assert(unreserved(s[s.len() - 1]));
            assert(forall|i: int| 0 <= i < s.len() - 1 ==> #[trigger] s.drop_last()[i] == s[i]);
            assert(escaped(s) =~= s);
        }
    }
}

/// The size that a query reports is exactly what the result takes: with that
/// much room the escape is never out of size, with less it always is.
pub proof fn law_size_query_is_exact(m: Machine, query: Seq<u64>, call: Seq<u64>)
    requires
        arg(query, 0) == 0,
        arg(query, 1) != 0,
        http_uri_escape(m, query).1 == OK,
        arg(call, 0) != 0,
        arg(call, 1) == 0,
        arg(call, 3) == arg(query, 3),
    ensures
        crate::mem::load_u64(http_uri_escape(m, query).0.mem, arg(query, 1) as int) matches Some(n)
            && (http_uri_escape(m, call).1 == HTTP_ERROR_OUT_OF_SIZE <==> arg(call, 2) < n),
{
    let e = escaped(text_at(m.mem, arg(query, 3) as int)->0).push(0);
    let n = choose|n: nat| ends_at(m.mem, arg(query, 3) as int, n);
    assert(ends_at(m.mem, arg(query, 3) as int, n));
    law_escaped_alphabet(text_at(m.mem, arg(query, 3) as int)->0);
    crate::mem::law_read_back_u64(m.mem, arg(query, 1) as int, e.len() as u64);
}

/// The exports of libSceHttp and libSceHttp2.
#[derive(Clone, Copy, PartialEq, Eq, Structural, Debug)]
pub enum HttpExport {
    HttpInit,
    HttpCreateTemplate,
    HttpDeleteTemplate,
    HttpTerm,
    HttpUriEscape,
    Http2Init,
    Http2CreateTemplate,
    Http2CreateRequestWithUrl,
    Http2Term,
}

impl Export for HttpExport {
    open spec fn as_handler(self) -> Handler {
        Handler::Http(self)
    }

    fn handler(self) -> (r: Handler) {
        Handler::Http(self)
    }
}

/// Names and the exports that answer them.
pub const EXPORTS: [(&'static str, &'static str, HttpExport); 9] = [
    ("libSceHttp", "sceHttpInit", HttpExport::HttpInit),
    ("libSceHttp", "sceHttpCreateTemplate", HttpExport::HttpCreateTemplate),
    ("libSceHttp", "sceHttpDeleteTemplate", HttpExport::HttpDeleteTemplate),
    ("libSceHttp", "sceHttpTerm", HttpExport::HttpTerm),
    ("libSceHttp", "sceHttpUriEscape", HttpExport::HttpUriEscape),
    ("libSceHttp2", "sceHttp2Init", HttpExport::Http2Init),
    ("libSceHttp2", "sceHttp2CreateTemplate", HttpExport::Http2CreateTemplate),
    ("libSceHttp2", "sceHttp2CreateRequestWithURL", HttpExport::Http2CreateRequestWithUrl),
    ("libSceHttp2", "sceHttp2Term", HttpExport::Http2Term),
];

/// The registry with this library in it.
pub open spec fn registered(r: Registry) -> Registry {
    with_exports(r, EXPORTS@)
}

/// Register libSceHttp and libSceHttp2.
pub fn register(registry: &mut HleRegistry)
    ensures
        final(registry)@ == registered(old(registry)@),
{
    registry.register_exports(&EXPORTS);
}

/// What an export does: the next machine and the answer.
pub open spec fn effect(e: HttpExport, m: Machine, a: Seq<u64>) -> (Machine, Reply) {
    match e {
        HttpExport::HttpInit => returns_value(http_init(m, a)),
        HttpExport::HttpCreateTemplate => returns_value(http_create_template(m, a)),
        HttpExport::HttpDeleteTemplate => returns_value(http_delete_template(m, a)),
        HttpExport::HttpTerm => returns_value(http_term(m, a)),
        HttpExport::HttpUriEscape => returns_value(http_uri_escape(m, a)),
        HttpExport::Http2Init => returns_value(http2_init(m, a)),
        HttpExport::Http2CreateTemplate => returns_value(http2_create_template(m, a)),
        HttpExport::Http2CreateRequestWithUrl => (
            m,
            Reply::Return(
                if m.http.templates2.dom().contains(id_of(arg(a, 0))) {
                    HTTP2_ERROR_CANNOT_CONNECT
                } else {
                    HTTP2_ERROR_INVALID_ID
                },
            ),
        ),
        HttpExport::Http2Term => returns_value(http2_term(m, a)),
    }
}

/// Call an export.
pub fn call(e: HttpExport, ctx: &mut HleContext, args: &[u64]) -> (r: Outcome)
    ensures
        final(ctx)@ == effect(e, old(ctx)@, args@).0,
        r@ == effect(e, old(ctx)@, args@).1,
{
    match e {
        HttpExport::HttpInit => Outcome::Return(hle_http_init(ctx, args)),
        HttpExport::HttpCreateTemplate => Outcome::Return(hle_http_create_template(ctx, args)),
        HttpExport::HttpDeleteTemplate => Outcome::Return(hle_http_delete_template(ctx, args)),
        HttpExport::HttpTerm => Outcome::Return(hle_http_term(ctx, args)),
        HttpExport::HttpUriEscape => Outcome::Return(hle_http_uri_escape(ctx, args)),
        HttpExport::Http2Init => Outcome::Return(hle_http2_init(ctx, args)),
        HttpExport::Http2CreateTemplate => Outcome::Return(hle_http2_create_template(ctx, args)),
        HttpExport::Http2CreateRequestWithUrl => Outcome::Return(
            hle_http2_create_request_with_url(ctx, args),
        ),
        HttpExport::Http2Term => Outcome::Return(hle_http2_term(ctx, args)),
    }
}

} // verus!
