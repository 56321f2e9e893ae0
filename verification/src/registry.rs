//! The export registry: which export answers which imported name.
//!
//! An import is known by its library and its name, and may also be bound to a
//! numeric identifier. A name that is registered again is answered by its last
//! registration.
use vstd::prelude::*;
use crate::agc::defaults::DefaultsState;
use crate::agc::submit::{Submit, SubmitState};
use crate::context::{HleContext, Machine};
use crate::libsce_agc::AgcExport;
use crate::libsce_ampr::{AmprExport, ReadState};
use crate::libsce_audio_in::{AudioInExport, Delayed};
use crate::libsce_audio_out2::{AudioOut2Export, PortSubmission, Samples};
use crate::libsce_audio_propagation::AudioPropagationExport;
use crate::libsce_content_export::ContentExportExport;
use crate::libsce_coredump::CoredumpExport;
use crate::libsce_dialog_misc::DialogExport;
use crate::libsce_fiber::FiberExport;
use crate::libsce_http::HttpExport;
use crate::libsce_ime_dialog::ImeDialogExport;
use crate::table::Table;
use crate::text::str_eq;

verus! {

/// The export that answers an import.
#[derive(Clone, Copy, PartialEq, Eq, Structural, Debug)]
pub enum Handler {
    Agc(AgcExport),
    Ampr(AmprExport),
    AudioIn(AudioInExport),
    AudioOut2(AudioOut2Export),
    AudioPropagation(AudioPropagationExport),
    ContentExport(ContentExportExport),
    Coredump(CoredumpExport),
    Dialog(DialogExport),
    Fiber(FiberExport),
    Http(HttpExport),
    ImeDialog(ImeDialogExport),
}

/// What a call comes to: a value for the caller, or what the host has to do
/// before there is one.
pub enum Outcome {
    /// The call returns this value.
    Return(u64),
    /// Go on with a submission.
    Submit(SubmitState),
    /// Go on with a request for register defaults.
    Defaults(DefaultsState),
    /// Go on with a file read.
    Read(ReadState),
    /// Sleep, then return.
    Delayed(Delayed),
    /// Play the samples, pace the context, then return zero.
    Push { context: u64, audio: Vec<PortSubmission> },
    /// Pace the context, then return zero.
    Pace { context: u64 },
}

/// The view of [`Outcome`].
pub enum Reply {
    Return(u64),
    Submit(Submit),
    Defaults(DefaultsState),
    Read(ReadState),
    Delayed(Delayed),
    Push { context: u64, audio: Seq<Samples> },
    Pace { context: u64 },
}

impl View for Outcome {
    type V = Reply;

    open spec fn view(&self) -> Reply {
        match *self {
            Outcome::Return(v) => Reply::Return(v),
            Outcome::Submit(s) => Reply::Submit(s@),
            Outcome::Defaults(s) => Reply::Defaults(s),
            Outcome::Read(s) => Reply::Read(s),
            Outcome::Delayed(d) => Reply::Delayed(d),
            Outcome::Push { context, audio } => Reply::Push {
                context,
                audio: crate::libsce_audio_out2::samples_of(audio@),
            },
            Outcome::Pace { context } => Reply::Pace { context },
        }
    }
}

/// A machine and a plain returned value.
pub open spec fn returns_value(p: (Machine, u64)) -> (Machine, Reply) {
    (p.0, Reply::Return(p.1))
}

/// `after` and `reply` are the two parts of `p`.
pub open spec fn answered(p: (Machine, Reply), after: Machine, reply: Reply) -> bool {
    after == p.0 && reply == p.1
}

/// An export of one library.
pub trait Export: Copy {
    spec fn as_handler(self) -> Handler;

    fn handler(self) -> (r: Handler)
        ensures
            r == self.as_handler(),
    ;
}

/// An imported name: library and function.
pub type Key = (Seq<char>, Seq<char>);

/// What is registered under a name: the export, and why it is incomplete if it
/// is.
pub struct Registered {
    pub handler: Handler,
    pub reason: Option<Seq<char>>,
}

/// Everything that is registered.
pub type Exports = Map<Key, Registered>;

/// The view of [`HleRegistry`].
#[verifier::ext_equal]
pub struct Registry {
    pub exports: Exports,
    pub nids: Map<u64, Key>,
}

impl Registry {
    /// The registry with a name answered by `handler`.
    pub open spec fn with(
        self,
        library: Seq<char>,
        name: Seq<char>,
        handler: Handler,
        reason: Option<Seq<char>>,
    ) -> Registry {
        Registry {
            exports: self.exports.insert((library, name), Registered { handler, reason }),
            ..self
        }
    }
}

/// The registry after the rows of a table: library, name and export.
pub open spec fn with_exports<E: Export>(
    r: Registry,
    t: Seq<(&'static str, &'static str, E)>,
) -> Registry
    decreases t.len(),
{
    if t.len() == 0 {
        r
    } else {
        with_exports(r, t.drop_last()).with(t.last().0@, t.last().1@, t.last().2.as_handler(), None)
    }
}

/// The registry after the rows of a table of identifiers: library, name,
/// identifier and export.
pub open spec fn with_nids<E: Export>(
    r: Registry,
    t: Seq<(&'static str, &'static str, u64, E)>,
) -> Registry
    decreases t.len(),
{
    if t.len() == 0 {
        r
    } else {
        let x = with_nids(r, t.drop_last());
        let y = x.with(t.last().0@, t.last().1@, t.last().3.as_handler(), None);
        Registry { nids: x.nids.insert(t.last().2, (t.last().0@, t.last().1@)), ..y }
    }
}

/// The registry after the rows of a table of incomplete exports: library, name,
/// export and what is missing.
pub open spec fn with_incomplete<E: Export>(
    r: Registry,
    t: Seq<(&'static str, &'static str, E, &'static str)>,
) -> Registry
    decreases t.len(),
{
    if t.len() == 0 {
        r
    } else {
        with_incomplete(r, t.drop_last()).with(
            t.last().0@,
            t.last().1@,
            t.last().2.as_handler(),
            Some(t.last().3@),
        )
    }
}

/// One registration.
#[derive(Clone, Copy)]
struct Registration {
    library: &'static str,
    name: &'static str,
    handler: Handler,
    reason: Option<&'static str>,
}

impl Registration {
    spec fn key(self) -> Key {
        (self.library@, self.name@)
    }

    spec fn registered(self) -> Registered {
        Registered {
            handler: self.handler,
            reason: match self.reason {
                Some(r) => Some(r@),
                None => None,
            },
        }
    }
}

spec fn distinct(e: Seq<Registration>) -> bool {
    forall|i: int, j: int|
        0 <= i < e.len() && 0 <= j < e.len() && i != j ==> (#[trigger] e[i]).key() != (
        #[trigger] e[j]).key()
}

spec fn has_key(e: Seq<Registration>, k: Key) -> bool {
    exists|i: int| 0 <= i < e.len() && (#[trigger] e[i]).key() == k
}

spec fn position(e: Seq<Registration>, k: Key) -> int {
    choose|i: int| 0 <= i < e.len() && (#[trigger] e[i]).key() == k
}

spec fn as_exports(e: Seq<Registration>) -> Exports {
    Map::new(|k: Key| has_key(e, k), |k: Key| e[position(e, k)].registered())
}

/// The registry.
pub struct HleRegistry {
    exports: Vec<Registration>,
    nids: Table<(&'static str, &'static str)>,
}

/// The key of a pair of names.
pub open spec fn key_of(p: (&'static str, &'static str)) -> Key {
    (p.0@, p.1@)
}

impl View for HleRegistry {
    type V = Registry;

    closed spec fn view(&self) -> Registry {
        Registry {
            exports: as_exports(self.exports@),
            nids: self.nids@.map_values(|p: (&'static str, &'static str)| key_of(p)),
        }
    }
}

proof fn lemma_position(e: Seq<Registration>, i: int)
    requires
        distinct(e),
        0 <= i < e.len(),
    ensures
        has_key(e, e[i].key()),
        position(e, e[i].key()) == i,
        as_exports(e)[e[i].key()] == e[i].registered(),
        as_exports(e).dom().contains(e[i].key()),
{
    let p = position(e, e[i].key());
    assert(e[p].key() == e[i].key());
}

proof fn lemma_push_export(e: Seq<Registration>, x: Registration)
    requires
        distinct(e),
        !has_key(e, x.key()),
    ensures
        distinct(e.push(x)),
        as_exports(e.push(x)) == as_exports(e).insert(x.key(), x.registered()),
{
    let n = e.push(x);
    assert(distinct(n)) by {
        assert forall|i: int, j: int|
            0 <= i < n.len() && 0 <= j < n.len() && i != j implies (#[trigger] n[i]).key() != (
        #[trigger] n[j]).key() by {
            if i < e.len() {
                assert(e[i].key() != x.key());
            }
            if j < e.len() {
                assert(e[j].key() != x.key());
            }
        }
    }
    lemma_same_exports(n, as_exports(e).insert(x.key(), x.registered()), e.len() as int, e);
}

proof fn lemma_update_export(e: Seq<Registration>, i: int, x: Registration)
    requires
        distinct(e),
        0 <= i < e.len(),
        e[i].key() == x.key(),
    ensures
        distinct(e.update(i, x)),
        as_exports(e.update(i, x)) == as_exports(e).insert(x.key(), x.registered()),
{
    let n = e.update(i, x);
    assert(distinct(n)) by {
        assert forall|a: int, b: int|
            0 <= a < n.len() && 0 <= b < n.len() && a != b implies (#[trigger] n[a]).key() != (
        #[trigger] n[b]).key() by {
            assert(e[a].key() != e[b].key());
        }
    }
    lemma_same_exports(n, as_exports(e).insert(x.key(), x.registered()), i, e);
}

/// `n` is `e` with entry `i` set, so it means `e`'s map with that key bound.
proof fn lemma_same_exports(n: Seq<Registration>, b: Exports, i: int, e: Seq<Registration>)
    requires
        distinct(n),
        distinct(e),
        0 <= i < n.len(),
        i < e.len() ==> e[i].key() == n[i].key(),
        n.len() == (if i < e.len() {
            e.len()
        } else {
            e.len() + 1
        }),
        forall|j: int| 0 <= j < n.len() && j != i ==> j < e.len() && n[j] == #[trigger] e[j],
        b == as_exports(e).insert(n[i].key(), n[i].registered()),
    ensures
        as_exports(n) == b,
{
    let a = as_exports(n);
    lemma_position(n, i);
    assert forall|k: Key|
        #![trigger a.dom().contains(k)]
        #![trigger b.dom().contains(k)]
        #![trigger a[k]]
        a.dom().contains(k) == b.dom().contains(k) && (a.dom().contains(k) ==> a[k] == b[k]) by {
        if a.dom().contains(k) && k != n[i].key() {
            let p = position(n, k);
            assert(n[p].key() == k);
            assert(e[p].key() == k);
            lemma_position(e, p);
        }
        if b.dom().contains(k) && k != n[i].key() {
            let q = position(e, k);
            assert(has_key(e, k));
            assert(e[q].key() == k);
            assert(q != i);
            assert(n[q].key() == k);
        }
    }
    assert(a =~= b);
}

impl HleRegistry {
    #[verifier::type_invariant]
    spec fn inv(self) -> bool {
        distinct(self.exports@)
    }

    /// A registry without registrations.
    pub fn empty() -> (r: HleRegistry)
        ensures
            r@ == no_registrations(),
    {
        let r = HleRegistry { exports: Vec::new(), nids: Table::new() };
        assert(r@.exports =~= Map::<Key, Registered>::empty()) by {
            assert(forall|k: Key| !has_key(Seq::<Registration>::empty(), k));
        }
        assert(r@.nids =~= Map::<u64, Key>::empty());
        r
    }

    /// Where a name stands among the registrations.
    fn find(&self, library: &str, name: &str) -> (r: Option<usize>)
        ensures
            r is Some <==> self@.exports.dom().contains((library@, name@)),
            r is Some ==> r->0 < self.exports@.len() && self.exports@[r->0 as int].key() == (
                library@,
                name@,
            ) && self@.exports[(library@, name@)] == self.exports@[r->0 as int].registered(),
    {
        let ghost k: Key = (library@, name@);
        let mut i: usize = 0;
        while i < self.exports.len()
            invariant
                i <= self.exports@.len(),
                k == (library@, name@),
                forall|j: int| 0 <= j < i ==> (#[trigger] self.exports@[j]).key() != k,
            decreases self.exports@.len() - i,
        {
            let x = self.exports[i];
            if str_eq(x.name, name) {
                if str_eq(x.library, library) {
                    proof {
                        use_type_invariant(self);
                        lemma_position(self.exports@, i as int);
                    }
                    return Some(i);
                }
            }
            i += 1;
        }
        None
    }

    fn bind(
        &mut self,
        library: &'static str,
        name: &'static str,
        handler: Handler,
        reason: Option<&'static str>,
    )
        ensures
            final(self)@ == old(self)@.with(
                library@,
                name@,
                handler,
                match reason {
                    Some(x) => Some(x@),
                    None => None,
                },
            ),
    {
        let x = Registration { library, name, handler, reason };
        let ghost before = self.exports@;
        proof {
            use_type_invariant(&*self);
        }
        let at = self.find(library, name);
        let mut e: Vec<Registration> = Vec::new();
        std::mem::swap(&mut e, &mut self.exports);
        match at {
            Some(i) => {
                e.set(i, x);
                proof {
                    lemma_update_export(before, i as int, x);
                }
            },
            None => {
                e.push(x);
                proof {
                    lemma_push_export(before, x);
                }
            },
        }
        self.exports = e;
    }

    /// Answer a name with an export.
    pub fn register(&mut self, library: &'static str, name: &'static str, handler: Handler)
        ensures
            final(self)@ == old(self)@.with(library@, name@, handler, None),
    {
        self.bind(library, name, handler, None);
    }

    /// Answer a name with an export, and bind an identifier to the name.
    pub fn register_nid(
        &mut self,
        library: &'static str,
        name: &'static str,
        nid: u64,
        handler: Handler,
    )
        ensures
            final(self)@ == (Registry {
                nids: old(self)@.nids.insert(nid, (library@, name@)),
                ..old(self)@.with(library@, name@, handler, None)
            }),
    {
        self.bind(library, name, handler, None);
        let ghost before = self@;
        proof {
            use_type_invariant(&*self);
        }
        let mut nids: Table<(&'static str, &'static str)> = Table::new();
        std::mem::swap(&mut nids, &mut self.nids);
        nids.insert(nid, (library, name));
        self.nids = nids;
        assert(self@.nids =~= before.nids.insert(nid, (library@, name@)));
    }

    /// Answer a name with an export that does not do all it should.
    pub fn register_incomplete(
        &mut self,
        library: &'static str,
        name: &'static str,
        handler: Handler,
        reason: &'static str,
    )
        ensures
            final(self)@ == old(self)@.with(library@, name@, handler, Some(reason@)),
    {
        self.bind(library, name, handler, Some(reason));
    }

    /// Register every row of a table.
    pub fn register_exports<E: Export>(&mut self, t: &[(&'static str, &'static str, E)])
        ensures
            final(self)@ == with_exports(old(self)@, t@),
    {
        let ghost before = self@;
        let mut i: usize = 0;
        assert(t@.take(0) =~= Seq::empty());
        while i < t.len()
            invariant
                i <= t@.len(),
                before == old(self)@,
                self@ == with_exports(before, t@.take(i as int)),
            decreases t@.len() - i,
        {
            proof {
                assert(t@.take(i + 1).drop_last() =~= t@.take(i as int));
                assert(t@.take(i + 1).last() == t@[i as int]);
            }
            let row = t[i];
            self.register(row.0, row.1, row.2.handler());
            i += 1;
        }
        assert(t@.take(i as int) =~= t@);
    }

    /// Register every row of a table of identifiers.
    pub fn register_nids<E: Export>(&mut self, t: &[(&'static str, &'static str, u64, E)])
        ensures
            final(self)@ == with_nids(old(self)@, t@),
    {
        let ghost before = self@;
        let mut i: usize = 0;
        assert(t@.take(0) =~= Seq::empty());
        while i < t.len()
            invariant
                i <= t@.len(),
                before == old(self)@,
                self@ == with_nids(before, t@.take(i as int)),
            decreases t@.len() - i,
        {
            proof {
                assert(t@.take(i + 1).drop_last() =~= t@.take(i as int));
                assert(t@.take(i + 1).last() == t@[i as int]);
            }
            let row = t[i];
            self.register_nid(row.0, row.1, row.2, row.3.handler());
            i += 1;
        }
        assert(t@.take(i as int) =~= t@);
    }

    /// Register every row of a table of incomplete exports.
    pub fn register_incompletes<E: Export>(
        &mut self,
        t: &[(&'static str, &'static str, E, &'static str)],
    )
        ensures
            final(self)@ == with_incomplete(old(self)@, t@),
    {
        let ghost before = self@;
        let mut i: usize = 0;
        assert(t@.take(0) =~= Seq::empty());
        while i < t.len()
            invariant
                i <= t@.len(),
                before == old(self)@,
                self@ == with_incomplete(before, t@.take(i as int)),
            decreases t@.len() - i,
        {
            proof {
                assert(t@.take(i + 1).drop_last() =~= t@.take(i as int));
                assert(t@.take(i + 1).last() == t@[i as int]);
            }
            let row = t[i];
            self.register_incomplete(row.0, row.1, row.2.handler(), row.3);
            i += 1;
        }
        assert(t@.take(i as int) =~= t@);
    }

    /// Whether a name is answered.
    pub fn is_implemented(&self, library: &str, name: &str) -> (r: bool)
        ensures
            r == self@.exports.dom().contains((library@, name@)),
    {
        self.find(library, name).is_some()
    }

    /// The export that answers a name.
    pub fn handler(&self, library: &str, name: &str) -> (r: Option<Handler>)
        ensures
            r == (if self@.exports.dom().contains((library@, name@)) {
                Some(self@.exports[(library@, name@)].handler)
            } else {
                None
            }),
    {
        match self.find(library, name) {
            Some(i) => Some(self.exports[i].handler),
            None => None,
        }
    }

    /// Every name that is answered, each once.
    pub fn registered_names(&self) -> (r: Vec<(&'static str, &'static str)>)
        ensures
            forall|k: Key| #[trigger]
                self@.exports.dom().contains(k) <==> exists|i: int|
                    0 <= i < r@.len() && key_of(#[trigger] r@[i]) == k,
            forall|i: int, j: int|
                0 <= i < j < r@.len() ==> key_of(#[trigger] r@[i]) != key_of(#[trigger] r@[j]),
    {
        let mut out: Vec<(&'static str, &'static str)> = Vec::new();
        let mut i: usize = 0;
        while i < self.exports.len()
            invariant
                i <= self.exports@.len(),
                out@.len() == i,
                forall|j: int|
                    0 <= j < i ==> key_of(#[trigger] out@[j]) == self.exports@[j].key(),
            decreases self.exports@.len() - i,
        {
            let x = self.exports[i];
            out.push((x.library, x.name));
            i += 1;
        }
        proof {
            use_type_invariant(self);
            let e = self.exports@;
            assert forall|k: Key| #[trigger]
                self@.exports.dom().contains(k) <==> exists|i: int|
                    0 <= i < out@.len() && key_of(#[trigger] out@[i]) == k by {
                if has_key(e, k) {
                    let p = position(e, k);
                    assert(e[p].key() == k);
                    assert(key_of(out@[p]) == k);
                }
                if exists|i: int| 0 <= i < out@.len() && key_of(#[trigger] out@[i]) == k {
                    let p = choose|i: int| 0 <= i < out@.len() && key_of(#[trigger] out@[i]) == k;
                    assert(e[p].key() == k);
                }
            }
            assert forall|i: int, j: int| 0 <= i < j < out@.len() implies key_of(#[trigger] out@[i])
                != key_of(#[trigger] out@[j]) by {
                assert(e[i].key() != e[j].key());
            }
        }
        out
    }

    /// Every name that is answered incompletely, with what is missing.
    pub fn incomplete_registrations(&self) -> (r: Vec<(&'static str, &'static str, &'static str)>)
        ensures
            forall|k: Key, reason: Seq<char>| #[trigger]
                flagged(self@.exports, k, reason) <==> listed(r@, k, reason),
            forall|i: int, j: int|
                0 <= i < j < r@.len() ==> ((#[trigger] r@[i]).0@, r@[i].1@) != ((#[trigger] r@[j]).0@, r@[j].1@),
    {
        let mut out: Vec<(&'static str, &'static str, &'static str)> = Vec::new();
        let ghost e = self.exports@;
        let mut i: usize = 0;
        proof {
            use_type_invariant(self);
        }
        while i < self.exports.len()
            invariant
                e == self.exports@,
                distinct(e),
                i <= e.len(),
                forall|x: int, y: int|
                    0 <= x < y < out@.len() ==> ((#[trigger] out@[x]).0@, out@[x].1@) != ((
                    #[trigger] out@[y]).0@, out@[y].1@),
                forall|j: int|
                    0 <= j < i && (#[trigger] e[j]).reason is Some ==> listed(
                        out@,
                        e[j].key(),
                        e[j].reason->0@,
                    ),
                forall|x: int|
                    0 <= x < out@.len() ==> exists|j: int|
                        0 <= j < i && tagged(#[trigger] e[j], #[trigger] out@[x]),
            decreases e.len() - i,
        {
            let x = self.exports[i];
            let ghost before = out@;
            match x.reason {
                Some(reason) => {
                    out.push((x.library, x.name, reason));
                    assert(tagged(e[i as int], out@[before.len() as int]));
                },
                None => {},
            }
            proof {
                assert forall|x: int, y: int| 0 <= x < y < out@.len() implies ((#[trigger] out@[x]).0@, out@[x].1@)
                    != ((#[trigger] out@[y]).0@, out@[y].1@) by {
                    if y == before.len() {
                        let j = choose|j: int| 0 <= j < i && tagged(#[trigger] e[j], before[x]);
                        assert(e[j].key() != e[i as int].key());
                    }
                }
                assert forall|j: int| 0 <= j < i + 1 && (#[trigger] e[j]).reason is Some implies listed(
                    out@,
                    e[j].key(),
                    e[j].reason->0@,
                ) by {
                    if j < i {
                        let y = choose|y: int|
                            0 <= y < before.len() && names(#[trigger] before[y], e[j].key(), e[j].reason->0@);
                        assert(names(out@[y], e[j].key(), e[j].reason->0@));
                    } else {
                        assert(names(out@[before.len() as int], e[j].key(), e[j].reason->0@));
                    }
                }
                assert forall|y: int| 0 <= y < out@.len() implies exists|j: int|
                    0 <= j < i + 1 && tagged(#[trigger] e[j], #[trigger] out@[y]) by {
                    if y < before.len() {
                        let j = choose|j: int| 0 <= j < i && tagged(#[trigger] e[j], before[y]);
                        assert(tagged(e[j], out@[y]));
                    } else {
                        assert(tagged(e[i as int], out@[y]));
                    }
                }
            }
            i += 1;
        }
        proof {
            use_type_invariant(self);
            assert forall|k: Key, reason: Seq<char>| #[trigger]
                flagged(self@.exports, k, reason) <==> listed(out@, k, reason) by {
                if flagged(self@.exports, k, reason) {
                    let p = position(e, k);
                    assert(has_key(e, k));
                    assert(e[p].key() == k);
                    assert(listed(out@, e[p].key(), e[p].reason->0@));
                }
                if listed(out@, k, reason) {
                    let y = choose|y: int| 0 <= y < out@.len() && names(#[trigger] out@[y], k, reason);
                    let j = choose|j: int| 0 <= j < e.len() && tagged(#[trigger] e[j], out@[y]);
                    lemma_position(e, j);
                }
            }
        }
        out
    }

    /// Every identifier that is bound to a name, once.
    pub fn registered_nid_overrides(&self) -> (r: Vec<(u64, &'static str, &'static str)>)
        ensures
            forall|i: int|
                0 <= i < r@.len() ==> self@.nids.dom().contains((#[trigger] r@[i]).0)
                    && self@.nids[r@[i].0] == (r@[i].1@, r@[i].2@),
            forall|nid: u64| #[trigger]
                self@.nids.dom().contains(nid) ==> exists|i: int|
                    0 <= i < r@.len() && (#[trigger] r@[i]).0 == nid,
            forall|i: int, j: int|
                0 <= i < j < r@.len() ==> (#[trigger] r@[i]).0 != (#[trigger] r@[j]).0,
    {
        let handles = self.nids.handles();
        let mut out: Vec<(u64, &'static str, &'static str)> = Vec::new();
        let mut i: usize = 0;
        while i < handles.len()
            invariant
                i <= handles@.len(),
                out@.len() == i,
                handles@.no_duplicates(),
                forall|k: u64| #[trigger] handles@.contains(k) <==> self.nids@.dom().contains(k),
                forall|j: int| 0 <= j < i ==> (#[trigger] out@[j]).0 == handles@[j],
                forall|j: int|
                    0 <= j < i ==> self@.nids.dom().contains((#[trigger] out@[j]).0)
                        && self@.nids[out@[j].0] == (out@[j].1@, out@[j].2@),
            decreases handles@.len() - i,
        {
            let nid: u64 = handles[i];
            assert(handles@.contains(nid));
            match self.nids.get(nid) {
                Some(p) => {
                    out.push((nid, p.0, p.1));
                },
                None => {},
            }
            i += 1;
        }
        proof {
            assert forall|nid: u64| #[trigger] self@.nids.dom().contains(nid) implies exists|i: int|
                0 <= i < out@.len() && (#[trigger] out@[i]).0 == nid by {
                assert(handles@.contains(nid));
                let j = handles@.index_of(nid);
                assert(out@[j].0 == nid);
            }
        }
        out
    }

    /// A registry with every library in it.
    pub fn new() -> (r: HleRegistry)
        ensures
            r@ == all_libraries(),
    {
        let mut r = HleRegistry::empty();
        crate::libsce_agc::register(&mut r);
        crate::libsce_ampr::register(&mut r);
        crate::libsce_audio_in::register(&mut r);
        crate::libsce_audio_out2::register(&mut r);
        crate::libsce_audio_propagation::register(&mut r);
        crate::libsce_content_export::register(&mut r);
        crate::libsce_coredump::register(&mut r);
        crate::libsce_dialog_misc::register(&mut r);
        crate::libsce_fiber::register(&mut r);
        crate::libsce_http::register(&mut r);
        crate::libsce_ime_dialog::register(&mut r);
        r
    }

    /// Call what answers a name; `None` when nothing does.
    pub fn call(&self, ctx: &mut HleContext, library: &str, name: &str, args: &[u64]) -> (r: Option<
        Outcome,
    >)
        ensures
            r is Some <==> self@.exports.dom().contains((library@, name@)),
            r is None ==> final(ctx)@ == old(ctx)@,
            r is Some ==> answers(
                self@.exports[(library@, name@)].handler,
                old(ctx)@,
                args@,
                final(ctx)@,
                r->0@,
            ),
    {
        match self.handler(library, name) {
            Some(h) => Some(dispatch(h, ctx, args)),
            None => None,
        }
    }
}

/// Every library, in the order of their names.
pub open spec fn all_libraries() -> Registry {
    let r = crate::libsce_agc::registered(no_registrations());
    let r = crate::libsce_ampr::registered(r);
    let r = crate::libsce_audio_in::registered(r);
    let r = crate::libsce_audio_out2::registered(r);
    let r = crate::libsce_audio_propagation::registered(r);
    let r = crate::libsce_content_export::registered(r);
    let r = crate::libsce_coredump::registered(r);
    let r = crate::libsce_dialog_misc::registered(r);
    let r = crate::libsce_fiber::registered(r);
    let r = crate::libsce_http::registered(r);
    crate::libsce_ime_dialog::registered(r)
}

/// `k` is answered incompletely for `reason`.
pub open spec fn flagged(x: Exports, k: Key, reason: Seq<char>) -> bool {
    x.dom().contains(k) && x[k].reason == Some(reason)
}

/// A row of a list is `k` with `reason`.
pub open spec fn names(row: (&'static str, &'static str, &'static str), k: Key, reason: Seq<char>) -> bool {
    row.0@ == k.0 && row.1@ == k.1 && row.2@ == reason
}

/// `k` with `reason` is in a list.
pub open spec fn listed(
    rows: Seq<(&'static str, &'static str, &'static str)>,
    k: Key,
    reason: Seq<char>,
) -> bool {
    exists|i: int| 0 <= i < rows.len() && names(#[trigger] rows[i], k, reason)
}

spec fn tagged(x: Registration, row: (&'static str, &'static str, &'static str)) -> bool {
    x.reason is Some && names(row, x.key(), x.reason->0@)
}

/// What an export may do: `after` is the next machine and `reply` the answer.
pub open spec fn answers(h: Handler, m: Machine, a: Seq<u64>, after: Machine, reply: Reply) -> bool {
    match h {
        Handler::Agc(e) => answered(crate::libsce_agc::effect(e, m, a), after, reply),
        Handler::Ampr(e) => answered(crate::libsce_ampr::effect(e, m, a), after, reply),
        Handler::AudioIn(e) => answered(crate::libsce_audio_in::effect(e, m, a), after, reply),
        Handler::AudioOut2(e) => crate::libsce_audio_out2::answers(e, m, a, after, reply),
        Handler::AudioPropagation(e) => answered(crate::libsce_audio_propagation::effect(
            e,
            m,
            a,
        ), after, reply),
        Handler::ContentExport(e) => answered(
            crate::libsce_content_export::effect(e, m, a),
            after,
            reply,
        ),
        Handler::Coredump(e) => answered(crate::libsce_coredump::effect(e, m, a), after, reply),
        Handler::Dialog(e) => answered(crate::libsce_dialog_misc::effect(e, m, a), after, reply),
        Handler::Fiber(e) => answered(crate::libsce_fiber::effect(e, m, a), after, reply),
        Handler::Http(e) => answered(crate::libsce_http::effect(e, m, a), after, reply),
        Handler::ImeDialog(e) => answered(crate::libsce_ime_dialog::effect(e, m, a), after, reply),
    }
}

/// Call an export.
pub fn dispatch(h: Handler, ctx: &mut HleContext, args: &[u64]) -> (r: Outcome)
    ensures
        answers(h, old(ctx)@, args@, final(ctx)@, r@),
{
    match h {
        Handler::Agc(e) => crate::libsce_agc::call(e, ctx, args),
        Handler::Ampr(e) => crate::libsce_ampr::call(e, ctx, args),
        Handler::AudioIn(e) => crate::libsce_audio_in::call(e, ctx, args),
        Handler::AudioOut2(e) => crate::libsce_audio_out2::call(e, ctx, args),
        Handler::AudioPropagation(e) => crate::libsce_audio_propagation::call(e, ctx, args),
        Handler::ContentExport(e) => crate::libsce_content_export::call(e, ctx, args),
        Handler::Coredump(e) => crate::libsce_coredump::call(e, ctx, args),
        Handler::Dialog(e) => crate::libsce_dialog_misc::call(e, ctx, args),
        Handler::Fiber(e) => crate::libsce_fiber::call(e, ctx, args),
        Handler::Http(e) => crate::libsce_http::call(e, ctx, args),
        Handler::ImeDialog(e) => crate::libsce_ime_dialog::call(e, ctx, args),
    }
}

/// A registry without registrations.
pub open spec fn no_registrations() -> Registry {
    Registry { exports: Map::empty(), nids: Map::empty() }
}

/// `r` with everything in `x` on top.
pub open spec fn overridden(r: Registry, x: Registry) -> Registry {
    Registry {
        exports: r.exports.union_prefer_right(x.exports),
        nids: r.nids.union_prefer_right(x.nids),
    }
}

proof fn lemma_exports_override<E: Export>(r: Registry, t: Seq<(&'static str, &'static str, E)>)
    ensures
        with_exports(r, t) == overridden(r, with_exports(no_registrations(), t)),
    decreases t.len(),
{
    if t.len() > 0 {
        lemma_exports_override(r, t.drop_last());
    }
    assert(with_exports(r, t) =~= overridden(r, with_exports(no_registrations(), t)));
}

proof fn lemma_nids_override<E: Export>(r: Registry, t: Seq<(&'static str, &'static str, u64, E)>)
    ensures
        with_nids(r, t) == overridden(r, with_nids(no_registrations(), t)),
    decreases t.len(),
{
    if t.len() > 0 {
        lemma_nids_override(r, t.drop_last());
    }
    assert(with_nids(r, t) =~= overridden(r, with_nids(no_registrations(), t)));
}

proof fn lemma_incomplete_override<E: Export>(
    r: Registry,
    t: Seq<(&'static str, &'static str, E, &'static str)>,
)
    ensures
        with_incomplete(r, t) == overridden(r, with_incomplete(no_registrations(), t)),
    decreases t.len(),
{
    if t.len() > 0 {
        lemma_incomplete_override(r, t.drop_last());
    }
    assert(with_incomplete(r, t) =~= overridden(r, with_incomplete(no_registrations(), t)));
}

/// Registering a library's tables again changes nothing.
pub proof fn law_registering_again_changes_nothing<E: Export>(
    r: Registry,
    exports: Seq<(&'static str, &'static str, E)>,
    nids: Seq<(&'static str, &'static str, u64, E)>,
    incomplete: Seq<(&'static str, &'static str, E, &'static str)>,
)
    ensures
        ({
            let once = with_incomplete(with_nids(with_exports(r, exports), nids), incomplete);
            with_incomplete(with_nids(with_exports(once, exports), nids), incomplete) == once
        }),
{
    let x = with_exports(no_registrations(), exports);
    let y = with_nids(no_registrations(), nids);
    let z = with_incomplete(no_registrations(), incomplete);
    let a = with_exports(r, exports);
    let b = with_nids(a, nids);
    let once = with_incomplete(b, incomplete);
    lemma_exports_override(r, exports);
    lemma_nids_override(a, nids);
    lemma_incomplete_override(b, incomplete);
    let c = with_exports(once, exports);
    let d = with_nids(c, nids);
    lemma_exports_override(once, exports);
    lemma_nids_override(c, nids);
    lemma_incomplete_override(d, incomplete);
    assert(with_incomplete(d, incomplete) =~= once);
}

/// The name of a row.
pub open spec fn row_key<E: Export>(row: (&'static str, &'static str, E)) -> Key {
    (row.0@, row.1@)
}

/// Every row of a table is answered once the table is registered: by its own
/// export, unless a later row has the same name. Names that are not in the table
/// are answered as before.
pub proof fn law_tables_answer<E: Export>(
    r: Registry,
    t: Seq<(&'static str, &'static str, E)>,
    k: Key,
)
    ensures
        forall|i: int|
            0 <= i < t.len() && #[trigger] row_key(t[i]) == k ==> with_exports(
                r,
                t,
            ).exports.dom().contains(k),
        forall|i: int|
            0 <= i < t.len() && row_key(#[trigger] t[i]) == k && (forall|j: int|
                i < j < t.len() ==> row_key(#[trigger] t[j]) != k) ==> with_exports(r, t).exports[k] == (
            Registered { handler: t[i].2.as_handler(), reason: None }),
        (forall|i: int| 0 <= i < t.len() ==> row_key(#[trigger] t[i]) != k) ==> (with_exports(
            r,
            t,
        ).exports.dom().contains(k) <==> r.exports.dom().contains(k)) && with_exports(r, t).exports[k]
            == r.exports[k],
    decreases t.len(),
{
    if t.len() > 0 {
        let s = t.drop_last();
        law_tables_answer(r, s, k);
        assert forall|i: int|
            0 <= i < t.len() && #[trigger] row_key(t[i]) == k implies with_exports(
            r,
            t,
        ).exports.dom().contains(k) by {
            if i < s.len() {
                assert(row_key(s[i]) == k);
            }
        }
        assert forall|i: int|
            0 <= i < t.len() && row_key(#[trigger] t[i]) == k && (forall|j: int|
                i < j < t.len() ==> row_key(#[trigger] t[j]) != k) implies with_exports(
            r,
            t,
        ).exports[k] == (Registered { handler: t[i].2.as_handler(), reason: None }) by {
            if i < s.len() {
                assert(row_key(s[i]) == k);
                assert forall|j: int| i < j < s.len() implies row_key(#[trigger] s[j]) != k by {
                    assert(row_key(t[j]) != k);
                }
                assert(row_key(t[t.len() - 1]) != k);
            }
        }
        if forall|i: int| 0 <= i < t.len() ==> row_key(#[trigger] t[i]) != k {
            assert forall|i: int| 0 <= i < s.len() implies row_key(#[trigger] s[i]) != k by {
                assert(row_key(t[i]) != k);
            }
            assert(row_key(t[t.len() - 1]) != k);
        }
    }
}

/// A name of a table is answered by a row of that name.
pub proof fn law_a_row_answers<E: Export>(
    r: Registry,
    t: Seq<(&'static str, &'static str, E)>,
    i: int,
)
    requires
        0 <= i < t.len(),
    ensures
        with_exports(r, t).exports.dom().contains(row_key(t[i])),
        exists|j: int|
            i <= j < t.len() && row_key(#[trigger] t[j]) == row_key(t[i]) && with_exports(
                r,
                t,
            ).exports[row_key(t[i])] == (Registered { handler: t[j].2.as_handler(), reason: None }),
    decreases t.len(),
{
    let s = t.drop_last();
    let last = t.len() - 1;
    if row_key(t[last]) != row_key(t[i]) {
        law_a_row_answers(r, s, i);
        let j = choose|j: int|
            i <= j < s.len() && row_key(#[trigger] s[j]) == row_key(s[i]) && with_exports(
                r,
                s,
            ).exports[row_key(s[i])] == (Registered { handler: s[j].2.as_handler(), reason: None });
        assert(t[j] == s[j]);
    } else {
        assert(row_key(t[last]) == row_key(t[i]));
    }
}

/// The name of a row with an identifier.
pub open spec fn nid_key<E: Export>(row: (&'static str, &'static str, u64, E)) -> Key {
    (row.0@, row.1@)
}

/// Every row of a table with identifiers is answered by its own export, unless a
/// later row has the same name. Names that are not in the table are answered as
/// before.
pub proof fn law_nid_tables_answer<E: Export>(
    r: Registry,
    t: Seq<(&'static str, &'static str, u64, E)>,
    k: Key,
)
    ensures
        forall|i: int|
            0 <= i < t.len() && nid_key(#[trigger] t[i]) == k && (forall|j: int|
                i < j < t.len() ==> nid_key(#[trigger] t[j]) != k) ==> with_nids(
                r,
                t,
            ).exports.dom().contains(k) && with_nids(r, t).exports[k] == (Registered {
                handler: t[i].3.as_handler(),
                reason: None,
            }),
        (forall|i: int| 0 <= i < t.len() ==> nid_key(#[trigger] t[i]) != k) ==> (
        with_nids(r, t).exports.dom().contains(k) <==> r.exports.dom().contains(k))
            && with_nids(r, t).exports[k] == r.exports[k],
    decreases t.len(),
{
    if t.len() > 0 {
        let s = t.drop_last();
        law_nid_tables_answer(r, s, k);
        assert forall|i: int|
            0 <= i < t.len() && nid_key(#[trigger] t[i]) == k && (forall|j: int|
                i < j < t.len() ==> nid_key(#[trigger] t[j]) != k) implies with_nids(
            r,
            t,
        ).exports.dom().contains(k) && with_nids(r, t).exports[k] == (Registered {
            handler: t[i].3.as_handler(),
            reason: None,
        }) by {
            if i < s.len() {
                assert(nid_key(s[i]) == k);
                assert forall|j: int| i < j < s.len() implies nid_key(#[trigger] s[j]) != k by {
                    assert(nid_key(t[j]) != k);
                }
                assert(nid_key(t[t.len() - 1]) != k);
            }
        }
        if forall|i: int| 0 <= i < t.len() ==> nid_key(#[trigger] t[i]) != k {
            assert forall|i: int| 0 <= i < s.len() implies nid_key(#[trigger] s[i]) != k by {
                assert(nid_key(t[i]) != k);
            }
            assert(nid_key(t[t.len() - 1]) != k);
        }
    }
}

/// The name of a row of incomplete exports.
pub open spec fn incomplete_key<E: Export>(row: (&'static str, &'static str, E, &'static str)) -> Key {
    (row.0@, row.1@)
}

/// Every row of a table of incomplete exports is answered by its own export, with
/// what is missing, unless a later row has the same name. Names that are not in
/// the table are answered as before.
pub proof fn law_incomplete_tables_answer<E: Export>(
    r: Registry,
    t: Seq<(&'static str, &'static str, E, &'static str)>,
    k: Key,
)
    ensures
        forall|i: int|
            0 <= i < t.len() && incomplete_key(#[trigger] t[i]) == k && (forall|j: int|
                i < j < t.len() ==> incomplete_key(#[trigger] t[j]) != k) ==> with_incomplete(
                r,
                t,
            ).exports.dom().contains(k) && with_incomplete(r, t).exports[k] == (Registered {
                handler: t[i].2.as_handler(),
                reason: Some(t[i].3@),
            }),
        (forall|i: int| 0 <= i < t.len() ==> incomplete_key(#[trigger] t[i]) != k) ==> (
        with_incomplete(r, t).exports.dom().contains(k) <==> r.exports.dom().contains(k))
            && with_incomplete(r, t).exports[k] == r.exports[k],
    decreases t.len(),
{
    if t.len() > 0 {
        let s = t.drop_last();
        law_incomplete_tables_answer(r, s, k);
        assert forall|i: int|
            0 <= i < t.len() && incomplete_key(#[trigger] t[i]) == k && (forall|j: int|
                i < j < t.len() ==> incomplete_key(#[trigger] t[j]) != k) implies with_incomplete(
            r,
            t,
        ).exports.dom().contains(k) && with_incomplete(r, t).exports[k] == (Registered {
            handler: t[i].2.as_handler(),
            reason: Some(t[i].3@),
        }) by {
            if i < s.len() {
                assert(incomplete_key(s[i]) == k);
                assert forall|j: int| i < j < s.len() implies incomplete_key(#[trigger] s[j]) != k by {
                    assert(incomplete_key(t[j]) != k);
                }
                assert(incomplete_key(t[t.len() - 1]) != k);
            }
        }
        if forall|i: int| 0 <= i < t.len() ==> incomplete_key(#[trigger] t[i]) != k {
            assert forall|i: int| 0 <= i < s.len() implies incomplete_key(#[trigger] s[i]) != k by {
                assert(incomplete_key(t[i]) != k);
            }
            assert(incomplete_key(t[t.len() - 1]) != k);
        }
    }
}

} // verus!
