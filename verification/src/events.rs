//! Kernel event-queue events, keyed by queue and event id.
use vstd::prelude::*;

verus! {

/// One registered event.
#[derive(Clone, Copy)]
pub struct EqueueUserEvent {
    pub udata: u64,
    pub filter: i16,
    pub triggered: bool,
    pub fflags: u32,
    pub data: i64,
}

impl Default for EqueueUserEvent {
    fn default() -> (r: EqueueUserEvent)
        ensures
            r == (EqueueUserEvent { udata: 0, filter: 0, triggered: false, fflags: 0, data: 0 }),
    {
        EqueueUserEvent { udata: 0, filter: 0, triggered: false, fflags: 0, data: 0 }
    }
}

/// Events by (queue, event id).
pub type Events = Map<(u64, u64), EqueueUserEvent>;

/// Filter of the events that `sceAgcDriverAddEqEvent` registers.
pub const EVFILT_GRAPHICS_CORE: i16 = -14;

pub open spec fn saturating(a: u32, b: u32) -> u32 {
    if a + b > u32::MAX {
        u32::MAX
    } else {
        (a + b) as u32
    }
}

/// The event after a trigger that adds `count` and carries `data`.
pub open spec fn fired(e: EqueueUserEvent, count: u32, data: i64) -> EqueueUserEvent {
    EqueueUserEvent { triggered: true, fflags: saturating(e.fflags, count), data, ..e }
}

/// Every event whose id is `event_id` fires once, on whichever queue it sits;
/// no other event changes.
pub open spec fn signal_event(e: Events, event_id: u32) -> Events {
    Map::new(
        |k: (u64, u64)| e.dom().contains(k),
        |k: (u64, u64)|
            if k.1 == event_id {
                fired(e[k], 1, event_id as i64)
            } else {
                e[k]
            },
    )
}

/// Every graphics-core event receives `count` interrupts, the last carrying
/// `context`; events with another filter do not change.
pub open spec fn signal_eop(e: Events, count: u32, context: u32) -> Events {
    Map::new(
        |k: (u64, u64)| e.dom().contains(k),
        |k: (u64, u64)|
            if e[k].filter == EVFILT_GRAPHICS_CORE {
                fired(e[k], count, context as i64)
            } else {
                e[k]
            },
    )
}

/// One entry of the table.
#[derive(Clone, Copy)]
pub struct EventEntry {
    equeue: u64,
    id: u64,
    event: EqueueUserEvent,
}

spec fn position(e: Seq<EventEntry>, k: (u64, u64)) -> int {
    choose|i: int| 0 <= i < e.len() && (#[trigger] e[i]).key() == k
}

spec fn as_map(e: Seq<EventEntry>) -> Events {
    Map::new(
        |k: (u64, u64)| exists|i: int| 0 <= i < e.len() && (#[trigger] e[i]).key() == k,
        |k: (u64, u64)| e[position(e, k)].event,
    )
}

spec fn distinct(e: Seq<EventEntry>) -> bool {
    forall|i: int, j: int|
        0 <= i < e.len() && 0 <= j < e.len() && i != j ==> (#[trigger] e[i]).key() != (
        #[trigger] e[j]).key()
}

impl EventEntry {
    spec fn key(self) -> (u64, u64) {
        (self.equeue, self.id)
    }
}

/// The registered events.
pub struct EventTable {
    entries: Vec<EventEntry>,
}

impl View for EventTable {
    type V = Events;

    closed spec fn view(&self) -> Events {
        as_map(self.entries@)
    }
}

/// Two tables with the same keys in the same places hold the same keys, and
/// each key's event is the one at its place.
proof fn lemma_pointwise(a: Seq<EventEntry>, b: Seq<EventEntry>)
    requires
        distinct(a),
        a.len() == b.len(),
        forall|i: int| 0 <= i < a.len() ==> (#[trigger] b[i]).key() == a[i].key(),
    ensures
        distinct(b),
        forall|k: (u64, u64)| #[trigger]
            as_map(b).dom().contains(k) <==> as_map(a).dom().contains(k),
        forall|k: (u64, u64)|
            as_map(a).dom().contains(k) ==> 0 <= position(a, k) < a.len() && a[position(a, k)].key() == k
                && #[trigger] as_map(a)[k] == a[position(a, k)].event && as_map(b)[k] == b[position(
                a,
                k,
            )].event,
{
    assert forall|i: int, j: int|
        0 <= i < b.len() && 0 <= j < b.len() && i != j implies (#[trigger] b[i]).key() != (
    #[trigger] b[j]).key() by {
        assert(a[i].key() != a[j].key());
    }
    assert forall|k: (u64, u64)| #[trigger]
        as_map(b).dom().contains(k) <==> as_map(a).dom().contains(k) by {
        if as_map(b).dom().contains(k) {
            let i = position(b, k);
            assert(b[i].key() == a[i].key());
            assert(a[i].key() == k);
        }
        if as_map(a).dom().contains(k) {
            let i = position(a, k);
            assert(b[i].key() == k);
        }
    }
    assert forall|k: (u64, u64)| as_map(a).dom().contains(k) implies 0 <= position(a, k) < a.len()
        && a[position(a, k)].key() == k && #[trigger] as_map(a)[k] == a[position(a, k)].event
        && as_map(b)[k] == b[position(a, k)].event by {
        let i = position(a, k);
        assert(a[i].key() == k);
        assert(b[i].key() == k);
        let j = position(b, k);
        assert(b[j].key() == k);
        assert(i == j);
    }
}

impl EventTable {
    #[verifier::type_invariant]
    spec fn inv(self) -> bool {
        distinct(self.entries@)
    }

    /// A table with no event.
    pub fn new() -> (r: EventTable)
        ensures
            r@ == Map::<(u64, u64), EqueueUserEvent>::empty(),
    {
        let r = EventTable { entries: Vec::new() };
        assert(r@ =~= Map::<(u64, u64), EqueueUserEvent>::empty());
        r
    }

    /// The event registered for `(equeue, id)`.
    pub fn get(&self, equeue: u64, id: u64) -> (r: Option<EqueueUserEvent>)
        ensures
            r == (if self@.dom().contains((equeue, id)) {
                Some(self@[(equeue, id)])
            } else {
                None
            }),
    {
        let mut i: usize = 0;
        while i < self.entries.len()
            invariant
                i <= self.entries@.len(),
                forall|j: int| 0 <= j < i ==> (#[trigger] self.entries@[j]).key() != (equeue, id),
            decreases self.entries@.len() - i,
        {
            let e = self.entries[i];
            if e.equeue == equeue && e.id == id {
                proof {
                    use_type_invariant(self);
                    assert(self.entries@[i as int].key() == (equeue, id));
                    let p = position(self.entries@, (equeue, id));
                    assert(self.entries@[p].key() == (equeue, id));
                }
                return Some(e.event);
            }
            i += 1;
        }
        None
    }

    /// Forget the event of `(equeue, id)`.
    pub fn remove(&mut self, equeue: u64, id: u64)
        ensures
            final(self)@ == old(self)@.remove((equeue, id)),
    {
        let ghost all = self.entries@;
        let ghost k = (equeue, id);
        let mut kept: Vec<EventEntry> = Vec::new();
        proof {
            use_type_invariant(&*self);
        }
        let mut i: usize = 0;
        while i < self.entries.len()
            invariant
                i <= self.entries@.len(),
                all == self.entries@,
                distinct(all),
                k == (equeue, id),
                distinct(kept@),
                forall|j: int|
                    0 <= j < kept@.len() ==> (#[trigger] kept@[j]).key() != k && all.take(i as int).contains(
                        kept@[j],
                    ),
                forall|j: int|
                    0 <= j < i && (#[trigger] all[j]).key() != k ==> kept@.contains(all[j]),
            decreases self.entries@.len() - i,
        {
            let e = self.entries[i];
            let ghost before = kept@;
            assert(all.take(i + 1) =~= all.take(i as int).push(e));
            if !(e.equeue == equeue && e.id == id) {
                kept.push(e);
                proof {
                    assert forall|a: int, b: int|
                        0 <= a < kept@.len() && 0 <= b < kept@.len() && a != b implies (
                    #[trigger] kept@[a]).key() != (#[trigger] kept@[b]).key() by {
                        if a < before.len() {
                            let x = choose|x: int|
                                0 <= x < i && all.take(i as int)[x] == before[a];
                            assert(all.take(i as int).contains(before[a]));
                            assert(all[x].key() != all[i as int].key());
                        }
                        if b < before.len() {
                            let x = choose|x: int|
                                0 <= x < i && all.take(i as int)[x] == before[b];
                            assert(all.take(i as int).contains(before[b]));
                            assert(all[x].key() != all[i as int].key());
                        }
                    }
                    assert(kept@.contains(e)) by {
                        assert(kept@[before.len() as int] == e);
                    }
                    assert forall|j: int|
                        0 <= j < i + 1 && (#[trigger] all[j]).key() != k implies kept@.contains(
                        all[j],
                    ) by {
                        if j < i {
                            assert(before.contains(all[j]));
                            let y = choose|y: int| 0 <= y < before.len() && before[y] == all[j];
                            assert(kept@[y] == all[j]);
                        }
                    }
                }
            }
            proof {
                assert forall|j: int| 0 <= j < kept@.len() implies (#[trigger] kept@[j]).key() != k
                    && all.take(i + 1).contains(kept@[j]) by {
                    if j < before.len() {
                        assert(kept@[j] == before[j]);
                        let x = choose|x: int| 0 <= x < i && all.take(i as int)[x] == before[j];
                        assert(all.take(i as int).contains(before[j]));
                        assert(all.take(i + 1)[x] == before[j]);
                    } else {
                        assert(all.take(i + 1)[i as int] == kept@[j]);
                    }
                }
            }
            i += 1;
        }
        proof {
            assert(all.take(i as int) =~= all);
            let m = as_map(kept@);
            let want = as_map(all).remove(k);
            assert forall|x: (u64, u64)|
                #![trigger m.dom().contains(x)]
                #![trigger want.dom().contains(x)]
                #![trigger m[x]]
                m.dom().contains(x) == want.dom().contains(x) && (m.dom().contains(x) ==> m[x]
                    == want[x]) by {
                if m.dom().contains(x) {
                    let p = position(kept@, x);
                    assert(kept@[p].key() == x);
                    assert(all.contains(kept@[p]));
                    let q = choose|q: int| 0 <= q < all.len() && all[q] == kept@[p];
                    assert(all[q].key() == x);
                    let q2 = position(all, x);
                    assert(all[q2].key() == x);
                    assert(q == q2);
                }
                if want.dom().contains(x) {
                    let q = position(all, x);
                    assert(all[q].key() == x);
                    assert(kept@.contains(all[q]));
                    let p = choose|p: int| 0 <= p < kept@.len() && kept@[p] == all[q];
                    assert(kept@[p].key() == x);
                }
            }
            assert(m =~= want);
        }
        self.entries = kept;
    }

    /// Register an event for `(equeue, id)`, replacing the one that was there.
    pub fn insert(&mut self, equeue: u64, id: u64, event: EqueueUserEvent)
        ensures
            final(self)@ == old(self)@.insert((equeue, id), event),
    {
        self.remove(equeue, id);
        let ghost before = self.entries@;
        let ghost without = self@;
        let ghost k = (equeue, id);
        proof {
            use_type_invariant(&*self);
        }
        let mut e: Vec<EventEntry> = Vec::new();
        std::mem::swap(&mut e, &mut self.entries);
        e.push(EventEntry { equeue, id, event });
        proof {
            let n = e@;
            assert(!without.dom().contains(k));
            assert forall|i: int, j: int|
                0 <= i < n.len() && 0 <= j < n.len() && i != j implies (#[trigger] n[i]).key() != (
            #[trigger] n[j]).key() by {
                if i < before.len() {
                    assert(before[i].key() != k);
                }
                if j < before.len() {
                    assert(before[j].key() != k);
                }
            }
            let m = as_map(n);
            let want = without.insert(k, event);
            assert forall|x: (u64, u64)|
                #![trigger m.dom().contains(x)]
                #![trigger want.dom().contains(x)]
                #![trigger m[x]]
                m.dom().contains(x) == want.dom().contains(x) && (m.dom().contains(x) ==> m[x]
                    == want[x]) by {
                if x == k {
                    assert(n[before.len() as int].key() == x);
                    let p = position(n, x);
                    assert(n[p].key() == x);
                } else {
                    if m.dom().contains(x) {
                        let p = position(n, x);
                        assert(n[p].key() == x);
                        assert(before[p].key() == x);
                        let q = position(before, x);
                        assert(before[q].key() == x);
                    }
                    if want.dom().contains(x) {
                        let q = position(before, x);
                        assert(before[q].key() == x);
                        assert(n[q].key() == x);
                        let p = position(n, x);
                        assert(n[p].key() == x);
                    }
                }
            }
            assert(m =~= want);
            assert(want =~= old(self)@.insert(k, event));
        }
        self.entries = e;
    }

    /// Fire every event whose id is `event_id`.
    pub fn signal(&mut self, event_id: u32)
        ensures
            final(self)@ == signal_event(old(self)@, event_id),
    {
        let ghost all = self.entries@;
        proof {
            use_type_invariant(&*self);
        }
        let mut out: Vec<EventEntry> = Vec::new();
        let mut i: usize = 0;
        while i < self.entries.len()
            invariant
                i <= self.entries@.len(),
                all == self.entries@,
                out@.len() == i,
                forall|j: int|
                    0 <= j < i ==> (#[trigger] out@[j]).key() == all[j].key() && out@[j].event == (
                    if all[j].id == event_id {
                        fired(all[j].event, 1, event_id as i64)
                    } else {
                        all[j].event
                    }),
            decreases self.entries@.len() - i,
        {
            let mut e = self.entries[i];
            if e.id == event_id as u64 {
                e.event = EqueueUserEvent {
                    triggered: true,
                    fflags: e.event.fflags.saturating_add(1),
                    data: event_id as i64,
                    ..e.event
                };
            }
            out.push(e);
            i += 1;
        }
        proof {
            lemma_pointwise(all, out@);
            assert(as_map(out@) =~= signal_event(as_map(all), event_id));
        }
        self.entries = out;
    }

    /// Deliver `count` end-of-pipe interrupts to every graphics-core event.
    pub fn signal_interrupts(&mut self, count: u32, context: u32)
        ensures
            final(self)@ == signal_eop(old(self)@, count, context),
    {
        let ghost all = self.entries@;
        proof {
            use_type_invariant(&*self);
        }
        let mut out: Vec<EventEntry> = Vec::new();
        let mut i: usize = 0;
        while i < self.entries.len()
            invariant
                i <= self.entries@.len(),
                all == self.entries@,
                out@.len() == i,
                forall|j: int|
                    0 <= j < i ==> (#[trigger] out@[j]).key() == all[j].key() && out@[j].event == (
                    if all[j].event.filter == EVFILT_GRAPHICS_CORE {
                        fired(all[j].event, count, context as i64)
                    } else {
                        all[j].event
                    }),
            decreases self.entries@.len() - i,
        {
            let mut e = self.entries[i];
            if e.event.filter == EVFILT_GRAPHICS_CORE {
                e.event = EqueueUserEvent {
                    triggered: true,
                    fflags: e.event.fflags.saturating_add(count),
                    data: context as i64,
                    ..e.event
                };
            }
            out.push(e);
            i += 1;
        }
        proof {
            lemma_pointwise(all, out@);
            assert(as_map(out@) =~= signal_eop(as_map(all), count, context));
        }
        self.entries = out;
    }
}

} // verus!
