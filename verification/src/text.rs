//! Text helpers: guest strings, their lossy decoding, and string comparison.
use vstd::prelude::*;
use vstd::string::StringSliceAdditionalSpecFns;
use vstd::utf8::{decode_utf8, encode_utf8_decode_utf8, valid_utf8};
use crate::mem::{load_u8, GuestMemory, Mem};

verus! {

/// What `String::from_utf8_lossy` makes of a byte string.
pub uninterp spec fn lossy_text(b: Seq<u8>) -> Seq<char>;

/// `String::from_utf8_lossy`: well-formed UTF-8 decodes to itself; what it puts
/// in the place of ill-formed bytes is left to the name [`lossy_text`].
#[verifier::external_body]
pub(crate) fn text_from_utf8_lossy(b: &[u8]) -> (r: String)
    ensures
        r@ == lossy_text(b@),
        valid_utf8(b@) ==> r@ == decode_utf8(b@),
{
    String::from_utf8_lossy(b).into_owned()
}

/// The NUL-terminated string at `a`, without the NUL and cut at `max` bytes, or
/// `None` when a byte of it is unmapped.
pub open spec fn cstring(m: Mem, a: int, max: nat) -> Option<Seq<u8>>
    decreases max,
{
    if max == 0 {
        Some(Seq::empty())
    } else {
        match load_u8(m, a) {
            None => None,
            Some(b) => if b == 0 {
                Some(Seq::empty())
            } else {
                match cstring(m, a + 1, (max - 1) as nat) {
                    None => None,
                    Some(rest) => Some(seq![b] + rest),
                }
            },
        }
    }
}

/// A string is what was read of it followed by the rest.
proof fn lemma_cstring_split(m: Mem, a: int, read: Seq<u8>, max: nat)
    requires
        read.len() <= max,
        forall|j: int| 0 <= j < read.len() ==> load_u8(m, a + j) == Some(#[trigger] read[j]),
        forall|j: int| 0 <= j < read.len() ==> #[trigger] read[j] != 0,
    ensures
        cstring(m, a, max) == (match cstring(m, a + read.len(), (max - read.len()) as nat) {
            None => None,
            Some(rest) => Some(read + rest),
        }),
    decreases read.len(),
{
    if read.len() == 0 {
        match cstring(m, a, max) {
            Some(rest) => {
                assert(read + rest =~= rest);
            },
            None => {},
        }
    } else {
        let tail = read.drop_first();
        assert(load_u8(m, a + 0) == Some(read[0]));
        assert forall|j: int| 0 <= j < tail.len() implies load_u8(m, a + 1 + j) == Some(
            #[trigger] tail[j],
        ) by {
            assert(tail[j] == read[j + 1]);
            assert(load_u8(m, a + (j + 1)) == Some(read[j + 1]));
        }
        lemma_cstring_split(m, a + 1, tail, (max - 1) as nat);
        assert(a + 1 + tail.len() == a + read.len());
        match cstring(m, a + read.len(), (max - read.len()) as nat) {
            Some(rest) => {
                assert(seq![read[0]] + (tail + rest) =~= read + rest);
            },
            None => {},
        }
    }
}

/// Read the NUL-terminated string at `address`, up to `max` bytes.
pub fn read_guest_cstring(mem: &GuestMemory, address: u64, max: usize) -> (r: Option<Vec<u8>>)
    ensures
        r is Some == cstring(mem@, address as int, max as nat) is Some,
        r is Some ==> r->0@ == cstring(mem@, address as int, max as nat)->0,
        r is Some ==> r->0@.len() <= max,
{
    let mut out: Vec<u8> = Vec::new();
    let mut i: usize = 0;
    while i < max
        invariant
            i <= max,
            out@.len() == i,
            forall|j: int| 0 <= j < i ==> load_u8(mem@, address + j) == Some(#[trigger] out@[j]),
            forall|j: int| 0 <= j < i ==> #[trigger] out@[j] != 0,
        decreases max - i,
    {
        proof {
            lemma_cstring_split(mem@, address as int, out@, max as nat);
        }
        match mem.read_u8(address, i as u64) {
            None => {
                return None;
            },
            Some(b) => {
                if b == 0 {
                    assert(out@ + Seq::<u8>::empty() =~= out@);
                    return Some(out);
                }
                out.push(b);
            },
        }
        i += 1;
    }
    proof {
        lemma_cstring_split(mem@, address as int, out@, max as nat);
        assert(out@ + Seq::<u8>::empty() =~= out@);
    }
    Some(out)
}

/// Whether two strings are the same text.
pub fn str_eq(a: &str, b: &str) -> (r: bool)
    ensures
        r == (a@ == b@),
{
    let x = a.as_bytes();
    let y = b.as_bytes();
    if x.len() != y.len() {
        return false;
    }
    let mut i: usize = 0;
    while i < x.len()
        invariant
            i <= x@.len(),
            x@.len() == y@.len(),
            x@ == a.spec_bytes(),
            y@ == b.spec_bytes(),
            forall|j: int| 0 <= j < i ==> x@[j] == y@[j],
        decreases x@.len() - i,
    {
        if x[i] != y[i] {
            return false;
        }
        i += 1;
    }
    proof {
        assert(x@ =~= y@);
        encode_utf8_decode_utf8(a@);
        encode_utf8_decode_utf8(b@);
    }
    true
}

} // verus!
