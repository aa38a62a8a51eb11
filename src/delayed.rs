//! Delayed delivery: envelopes held back until a fire time, cancellable
//! before they fire.
use crate::address::{Envelope, EnvelopeView};
use crate::router::{RouteError, Router};
use vstd::prelude::*;

verus! {

/// An envelope waiting for its fire time (in milliseconds on the node's
/// clock), under the identifier that cancels it.
#[derive(Debug)]
pub struct DelayedEntry {
    pub id: u64,
    pub fire_at: u64,
    pub envelope: Envelope,
}

/// The mathematical value of a delayed entry.
pub struct EntryView {
    pub id: u64,
    pub fire_at: u64,
    pub envelope: EnvelopeView,
}

impl View for DelayedEntry {
    type V = EntryView;

    open spec fn view(&self) -> EntryView {
        EntryView { id: self.id, fire_at: self.fire_at, envelope: self.envelope@ }
    }
}

/// Whether an entry is due at time `now`.
pub open spec fn is_due(e: EntryView, now: u64) -> bool {
    e.fire_at <= now
}

/// The entries of `s` that are due at `now`, in their order in `s`.
pub open spec fn due_part(s: Seq<EntryView>, now: u64) -> Seq<EntryView>
    decreases s.len(),
{
    if s.len() == 0 {
        Seq::empty()
    } else if is_due(s.last(), now) {
        due_part(s.drop_last(), now).push(s.last())
    } else {
        due_part(s.drop_last(), now)
    }
}

/// The entries of `s` that are not yet due at `now`, in their order in `s`.
pub open spec fn pending_part(s: Seq<EntryView>, now: u64) -> Seq<EntryView>
    decreases s.len(),
{
    if s.len() == 0 {
        Seq::empty()
    } else if !is_due(s.last(), now) {
        pending_part(s.drop_last(), now).push(s.last())
    } else {
        pending_part(s.drop_last(), now)
    }
}

/// Whether some entry of `s` carries identifier `id`.
pub open spec fn holds_id(s: Seq<EntryView>, id: u64) -> bool {
    exists|k: int| 0 <= k < s.len() && s[k].id == id
}

/// The fire time of an entry scheduled at `now` with `delay`; a time past
/// the clock's range is clamped to its largest value.
pub open spec fn fire_time(now: u64, delay: u64) -> u64 {
    if now + delay > u64::MAX {
        u64::MAX
    } else {
        (now + delay) as u64
    }
}

/// Every identifier in `s` is below `n`.
pub open spec fn ids_below(s: Seq<EntryView>, n: u64) -> bool {
    forall|k: int| 0 <= k < s.len() ==> #[trigger] s[k].id < n
}

/// No two entries of `s` share an identifier.
pub open spec fn unique_ids(s: Seq<EntryView>) -> bool {
    forall|a: int, b: int| 0 <= a < s.len() && 0 <= b < s.len() && a != b ==> s[a].id != s[b].id
}

/// Each entry of `sub` is an entry of `s`.
pub open spec fn drawn_from(sub: Seq<EntryView>, s: Seq<EntryView>) -> bool {
    forall|k: int| 0 <= k < sub.len() ==> exists|j: int| 0 <= j < s.len() && #[trigger] sub[k] == s[j]
}

proof fn lemma_pending_part(s: Seq<EntryView>, now: u64)
    ensures
        drawn_from(pending_part(s, now), s),
        unique_ids(s) ==> unique_ids(pending_part(s, now)),
    decreases s.len(),
{
    if s.len() > 0 {
        let init = s.drop_last();
        lemma_pending_part(init, now);
        let p = pending_part(init, now);
        assert forall|k: int| 0 <= k < p.len() implies exists|j: int| 0 <= j < s.len() && #[trigger] p[k] == s[j] by {
            let j = choose|j: int| 0 <= j < init.len() && p[k] == init[j];
            assert(p[k] == s[j]);
        }
        if unique_ids(s) {
            assert forall|a: int, b: int| 0 <= a < init.len() && 0 <= b < init.len() && a != b implies init[a].id != init[b].id by {
                assert(init[a] == s[a] && init[b] == s[b]);
            }
            assert forall|k: int| 0 <= k < p.len() implies p[k].id != s.last().id by {
                let j = choose|j: int| 0 <= j < init.len() && p[k] == init[j];
                assert(init[j] == s[j]);
                assert(s[j].id != s[s.len() - 1].id);
            }
        }
        if !is_due(s.last(), now) {
            let q = p.push(s.last());
            assert forall|k: int| 0 <= k < q.len() implies exists|j: int| 0 <= j < s.len() && #[trigger] q[k] == s[j] by {
                if k == p.len() {
                    assert(q[k] == s[s.len() - 1]);
                } else {
                    assert(q[k] == p[k]);
                }
            }
            if unique_ids(s) {
                assert forall|a: int, b: int| 0 <= a < q.len() && 0 <= b < q.len() && a != b implies q[a].id != q[b].id by {
                    if a == p.len() {
                        assert(q[b] == p[b]);
                    } else if b == p.len() {
                        assert(q[a] == p[a]);
                    } else {
                        assert(q[a] == p[a] && q[b] == p[b]);
                    }
                }
            }
        }
    }
}

/// Delayed delivery is never early: every entry that fires at `now` was due
/// by then, and every entry that stays pending is not.
pub proof fn lemma_fired_are_due(s: Seq<EntryView>, now: u64)
    ensures
        forall|k: int| 0 <= k < due_part(s, now).len() ==> #[trigger] due_part(s, now)[k].fire_at <= now,
        forall|k: int| 0 <= k < pending_part(s, now).len() ==> #[trigger] pending_part(s, now)[k].fire_at > now,
        due_part(s, now).len() + pending_part(s, now).len() == s.len(),
    decreases s.len(),
{
    if s.len() > 0 {
        lemma_fired_are_due(s.drop_last(), now);
        let d = due_part(s.drop_last(), now);
        let p = pending_part(s.drop_last(), now);
        if is_due(s.last(), now) {
            assert forall|k: int| 0 <= k < d.push(s.last()).len() implies #[trigger] d.push(s.last())[k].fire_at <= now by {
                if k < d.len() {
                    assert(d.push(s.last())[k] == d[k]);
                }
            }
        } else {
            assert forall|k: int| 0 <= k < p.push(s.last()).len() implies #[trigger] p.push(s.last())[k].fire_at > now by {
                if k < p.len() {
                    assert(p.push(s.last())[k] == p[k]);
                }
            }
        }
    }
}

/// A cancelled entry never fires: when no pending entry carries `id`, no
/// entry that fires carries it, whatever the time.
pub proof fn lemma_cancelled_never_fires(s: Seq<EntryView>, now: u64, id: u64)
    requires
        !holds_id(s, id),
    ensures
        !holds_id(due_part(s, now), id),
    decreases s.len(),
{
    if s.len() > 0 {
        let init = s.drop_last();
        assert(!holds_id(init, id)) by {
            if holds_id(init, id) {
                let k = choose|k: int| 0 <= k < init.len() && init[k].id == id;
                assert(s[k] == init[k]);
            }
        }
        lemma_cancelled_never_fires(init, now, id);
        let d = due_part(init, now);
        if is_due(s.last(), now) {
            assert(s.last() == s[s.len() - 1]);
            assert forall|k: int| 0 <= k < d.push(s.last()).len() implies d.push(s.last())[k].id != id by {
                if k < d.len() {
                    assert(d.push(s.last())[k] == d[k]);
                }
            }
        }
    }
}

/// What became of a fired entry handed to the router.
#[derive(Debug)]
pub enum Fired {
    /// It was placed in its target's mailbox.
    Delivered,
    /// Its target is gone or stopping: it is dropped, and nobody is told.
    Discarded,
    /// Its target's mailbox is full: it comes back, to be handed over again
    /// once the mailbox has room.
    Retry(DelayedEntry),
}

/// Hands a fired entry to the router like any other sender. A target that is
/// no longer registered loses the entry silently and stays unregistered.
pub fn deliver(router: &mut Router, entry: DelayedEntry) -> (r: Fired)
    requires
        old(router).wf(),
    ensures
        final(router).wf(),
        !old(router).registered(entry@.envelope.destination) ==> r is Discarded
            && final(router).relays() == old(router).relays(),
        old(router).registered(entry@.envelope.destination) ==> {
            let d = entry@.envelope.destination;
            let before = old(router).at(d);
            let after = final(router).at(d);
            &&& Router::changed_only_at(final(router), old(router), d)
            &&& after.phase() == before.phase()
            &&& !before.accepting() ==> r is Discarded && after.queued() == before.queued()
            &&& before.accepting() && before.queued().len() == before.cap() ==> (r matches Fired::Retry(e) && e@ == entry@) && after.queued() == before.queued()
            &&& before.accepting() && before.queued().len() < before.cap() ==> r is Delivered && after.queued() == before.queued().push(entry@.envelope)
        },
{
    let id = entry.id;
    let fire_at = entry.fire_at;
    match router.route(entry.envelope) {
        Ok(()) => Fired::Delivered,
        Err(RouteError::NotFound(_)) => Fired::Discarded,
        Err(RouteError::MailboxClosed(_)) => Fired::Discarded,
        Err(RouteError::Full(envelope)) => Fired::Retry(DelayedEntry { id, fire_at, envelope }),
    }
}

/// The pending delayed entries, in scheduling order.
pub struct Scheduler {
    entries: Vec<DelayedEntry>,
    next_id: u64,
}

impl Scheduler {
    /// The pending entries, oldest first.
    pub closed spec fn pending(&self) -> Seq<EntryView> {
        self.entries@.map_values(|e: DelayedEntry| e@)
    }

    /// The identifier the next scheduled entry gets.
    pub closed spec fn next(&self) -> u64 {
        self.next_id
    }

    /// Every pending identifier was handed out before `next()`, and no two
    /// pending entries share one.
    pub open spec fn wf(&self) -> bool {
        &&& ids_below(self.pending(), self.next())
        &&& unique_ids(self.pending())
    }

    /// A scheduler with nothing pending.
    pub fn new() -> (r: Scheduler)
        ensures
            r.wf(),
            r.pending() == Seq::<EntryView>::empty(),
    {
        let r = Scheduler { entries: Vec::new(), next_id: 0 };
        assert(r.pending() =~= Seq::<EntryView>::empty());
        r
    }

    /// The number of pending entries.
    pub fn len(&self) -> (r: usize)
        ensures
            r == self.pending().len(),
    {
        self.entries.len()
    }

    /// Holds `envelope` back until `delay` milliseconds after `now` and
    /// returns the identifier that cancels it. `None`, with nothing changed,
    /// only once every identifier has been handed out.
    pub fn schedule(&mut self, envelope: Envelope, now: u64, delay: u64) -> (r: Option<u64>)
        requires
            old(self).wf(),
        ensures
            final(self).wf(),
            old(self).next() == u64::MAX ==> r is None
                && final(self).pending() == old(self).pending(),
            old(self).next() < u64::MAX ==> {
                &&& r == Some(old(self).next())
                &&& final(self).next() == old(self).next() + 1
                &&& final(self).pending() == old(self).pending().push(
                    EntryView { id: old(self).next(), fire_at: fire_time(now, delay), envelope: envelope@ },
                )
            },
    {
        if self.next_id == u64::MAX {
            return None;
        }
        let id = self.next_id;
        let fire_at = now.saturating_add(delay);
        self.entries.push(DelayedEntry { id, fire_at, envelope });
        self.next_id = id + 1;
        proof {
            assert(self.pending() =~= old(self).pending().push(
                EntryView { id, fire_at: fire_time(now, delay), envelope: self.entries@.last().envelope@ },
            ));
            assert forall|a: int, b: int|
                0 <= a < self.pending().len() && 0 <= b < self.pending().len() && a != b
                    implies self.pending()[a].id != self.pending()[b].id by {
                if a < old(self).pending().len() {
                    assert(old(self).pending()[a].id < old(self).next());
                }
                if b < old(self).pending().len() {
                    assert(old(self).pending()[b].id < old(self).next());
                }
            }
            assert forall|k: int| 0 <= k < self.pending().len() implies #[trigger] self.pending()[k].id < self.next() by {
                if k < old(self).pending().len() {
                    assert(old(self).pending()[k].id < old(self).next());
                }
            }
        }
        Some(id)
    }

    /// Cancels the entry `id`. Returns whether it was pending; once this
    /// returns, no entry `id` is pending.
    pub fn cancel(&mut self, id: u64) -> (r: bool)
        requires
            old(self).wf(),
        ensures
            final(self).wf(),
            final(self).next() == old(self).next(),
            r == holds_id(old(self).pending(), id),
            !holds_id(final(self).pending(), id),
            !r ==> final(self).pending() == old(self).pending(),
            r ==> exists|k: int|
                0 <= k < old(self).pending().len() && old(self).pending()[k].id == id
                    && final(self).pending() == old(self).pending().remove(k),
    {
        let mut i: usize = 0;
        while i < self.entries.len()
            invariant
                *self == *old(self),
                old(self).wf(),
                0 <= i <= self.entries@.len(),
                forall|k: int| 0 <= k < i ==> self.entries@[k].id != id,
            decreases self.entries@.len() - i,
        {
            if self.entries[i].id == id {
                let _ = self.entries.remove(i);
                proof {
                    let ip = i as int;
                    assert(self.pending() =~= old(self).pending().remove(ip));
                    assert(old(self).pending()[ip].id == id);
                    assert forall|k: int| 0 <= k < self.pending().len() implies #[trigger] self.pending()[k].id != id by {
                        if k < ip {
                            assert(self.pending()[k] == old(self).pending()[k]);
                            assert(old(self).pending()[k].id != old(self).pending()[ip].id);
                        } else {
                            assert(self.pending()[k] == old(self).pending()[k + 1]);
                            assert(old(self).pending()[k + 1].id != old(self).pending()[ip].id);
                        }
                    }
                    assert forall|a: int, b: int|
                        0 <= a < self.pending().len() && 0 <= b < self.pending().len() && a != b
                            implies self.pending()[a].id != self.pending()[b].id by {
                        let oa = if a < ip { a } else { a + 1 };
                        let ob = if b < ip { b } else { b + 1 };
                        assert(self.pending()[a] == old(self).pending()[oa]);
                        assert(self.pending()[b] == old(self).pending()[ob]);
                        assert(old(self).pending()[oa].id != old(self).pending()[ob].id);
                    }
                    assert forall|k: int| 0 <= k < self.pending().len() implies #[trigger] self.pending()[k].id < self.next() by {
                        if k < ip {
                            assert(self.pending()[k] == old(self).pending()[k]);
                        } else {
                            assert(self.pending()[k] == old(self).pending()[k + 1]);
                        }
                    }
                }
                return true;
            }
            i = i + 1;
        }
        proof {
            assert forall|k: int| 0 <= k < old(self).pending().len() implies old(self).pending()[k].id != id by {
                assert(old(self).pending()[k] == old(self).entries@[k]@);
            }
        }
        false
    }

    /// Takes out every entry due at `now` and returns them in scheduling
    /// order; the others stay pending, in order.
    pub fn fire_due(&mut self, now: u64) -> (r: Vec<DelayedEntry>)
        requires
            old(self).wf(),
        ensures
            final(self).wf(),
            final(self).next() == old(self).next(),
            r@.map_values(|e: DelayedEntry| e@) == due_part(old(self).pending(), now),
            final(self).pending() == pending_part(old(self).pending(), now),
    {
        let ghost orig = old(self).pending();
        let mut all: Vec<DelayedEntry> = Vec::new();
        std::mem::swap(&mut self.entries, &mut all);
        let mut fired: Vec<DelayedEntry> = Vec::new();
        let ghost mut i: int = 0;
        proof {
            assert(orig.take(0) =~= Seq::<EntryView>::empty());
            assert(self.pending() =~= Seq::<EntryView>::empty());
            assert(fired@.map_values(|e: DelayedEntry| e@) =~= Seq::<EntryView>::empty());
            assert(all@.map_values(|e: DelayedEntry| e@) =~= orig.skip(0));
        }
        while all.len() > 0
            invariant
                0 <= i <= orig.len(),
                orig == old(self).pending(),
                self.next() == old(self).next(),
                all@.map_values(|e: DelayedEntry| e@) == orig.skip(i),
                fired@.map_values(|e: DelayedEntry| e@) == due_part(orig.take(i), now),
                self.pending() == pending_part(orig.take(i), now),
            decreases all@.len(),
        {
            proof {
                assert(all@.map_values(|e: DelayedEntry| e@).len() == all@.len());
                assert(i < orig.len());
            }
            let ghost prev = all@;
            let x = all.remove(0);
            proof {
                assert(x@ == orig.skip(i)[0]);
                assert(orig.take(i + 1).drop_last() =~= orig.take(i));
                assert(orig.take(i + 1).last() == orig[i]);
                assert forall|k: int| 0 <= k < all@.len() implies #[trigger] all@[k]@ == orig[i + 1 + k] by {
                    assert(all@[k] == prev[k + 1]);
                    assert(prev.map_values(|e: DelayedEntry| e@)[k + 1] == orig.skip(i)[k + 1]);
                }
                assert(all@.map_values(|e: DelayedEntry| e@) =~= orig.skip(i + 1));
            }
            if x.fire_at <= now {
                fired.push(x);
                proof {
                    assert(fired@.map_values(|e: DelayedEntry| e@) =~= due_part(orig.take(i), now).push(x@));
                }
            } else {
                self.entries.push(x);
                proof {
                    assert(self.pending() =~= pending_part(orig.take(i), now).push(x@));
                }
            }
            proof {
                i = i + 1;
            }
        }
        proof {
            assert(orig.skip(i).len() == 0);
            assert(orig.take(i) =~= orig);
            lemma_pending_part(orig, now);
            let p = self.pending();
            assert forall|k: int| 0 <= k < p.len() implies #[trigger] p[k].id < self.next() by {
                let j = choose|j: int| 0 <= j < orig.len() && p[k] == orig[j];
                assert(orig[j].id < old(self).next());
            }
        }
        fired
    }
}

} // verus!
