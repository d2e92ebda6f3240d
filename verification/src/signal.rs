//! Signals: reactive single-value cells with coalesced change notification.
//!
//! A signal owns one value, a dirty flag, and a list of notification slots,
//! one per subscriber. Each slot holds at most one undelivered notification
//! (its capacity is one), so however many times the value is mutated
//! between two flushes, a subscriber learns only "something changed" — the
//! coalescing and idempotence laws at the end of this module make that
//! exact.

use vstd::prelude::*;

verus! {

/// One subscriber's notification slot: a coalescing channel of capacity
/// one, plus whether the subscriber has dropped its receiving end.
#[derive(Clone, Copy, PartialEq, Eq, Structural, Debug)]
pub struct NotifySlot {
    /// The handle the subscriber polls and closes with.
    pub id: u64,
    /// Undelivered notifications queued in the slot; never more than one.
    pub pending: usize,
    /// True once the subscriber dropped its receiving end.
    pub closed: bool,
}

/// The mathematical state of a [`Signal`].
pub struct SignalView<T> {
    pub value: T,
    pub dirty: bool,
    pub subscribers: Seq<NotifySlot>,
    pub next_id: u64,
}

impl<T> SignalView<T> {
    /// Well-formedness: each slot holds at most one pending notification,
    /// and slot handles are distinct and below the allocation counter.
    pub open spec fn wf(self) -> bool {
        &&& forall|i: int|
            0 <= i < self.subscribers.len() ==> (#[trigger] self.subscribers[i]).pending <= 1
        &&& forall|i: int|
            0 <= i < self.subscribers.len() ==> (#[trigger] self.subscribers[i]).id < self.next_id
        &&& forall|i: int, j: int|
            #![trigger self.subscribers[i], self.subscribers[j]]
            0 <= i < j < self.subscribers.len() ==> self.subscribers[i].id
                != self.subscribers[j].id
    }
}

/// What mutating the value does to the state: the new value is stored and
/// the signal is marked dirty; subscribers are untouched.
pub open spec fn set_view<T>(m: SignalView<T>, value: T) -> SignalView<T> {
    SignalView { value, dirty: true, ..m }
}

/// A non-blocking send into a capacity-one slot: an empty slot gains the
/// one notification, a full slot keeps its one — the send is silently
/// dropped.
pub open spec fn notified(s: NotifySlot) -> NotifySlot {
    NotifySlot { pending: if s.pending == 0 { 1 } else { s.pending }, ..s }
}

/// What flushing does to the slots: every closed slot is dropped, every
/// remaining slot receives a non-blocking send.
pub open spec fn flushed_slots(s: Seq<NotifySlot>) -> Seq<NotifySlot>
    decreases s.len(),
{
    if s.len() == 0 {
        Seq::empty()
    } else if s.first().closed {
        flushed_slots(s.drop_first())
    } else {
        seq![notified(s.first())] + flushed_slots(s.drop_first())
    }
}

/// What flushing does to the state: a clean signal is left untouched; a
/// dirty one has its flag cleared and its slots notified as
/// [`flushed_slots`] says.
pub open spec fn flush_view<T>(m: SignalView<T>) -> SignalView<T> {
    if m.dirty {
        SignalView { dirty: false, subscribers: flushed_slots(m.subscribers), ..m }
    } else {
        m
    }
}

/// A value with change notification, flushable without knowing the value's
/// type.
///
/// `StateModel` is the implementor's mathematical state; the host flushes
/// every signal a model holds through this trait after each message.
pub trait FlushSignals: Sized {
    /// The mathematical state of the implementor.
    type StateModel;

    /// The state a concrete value stands for.
    spec fn model(self) -> Self::StateModel;

    /// What one flush does to the state.
    spec fn flushed_model(pre: Self::StateModel) -> Self::StateModel;

    /// Delivers the pending change notification, if any.
    fn flush_signals(&mut self)
        ensures
            final(self).model() == Self::flushed_model(old(self).model()),
    ;
}

/// A reactive cell of one `T` with coalescing change notification.
pub struct Signal<T> {
    /// The current value.
    pub value: T,
    /// Whether the value was mutated since the last flush.
    pub dirty: bool,
    /// One notification slot per subscriber.
    pub subscribers: Vec<NotifySlot>,
    /// The next subscriber handle to hand out.
    pub next_id: u64,
}

impl<T> FlushSignals for Signal<T> {
    type StateModel = SignalView<T>;

    open spec fn model(self) -> SignalView<T> {
        SignalView {
            value: self.value,
            dirty: self.dirty,
            subscribers: self.subscribers@,
            next_id: self.next_id,
        }
    }

    open spec fn flushed_model(pre: SignalView<T>) -> SignalView<T> {
        flush_view(pre)
    }

    fn flush_signals(&mut self)
        ensures
            final(self).model() == flush_view(old(self).model()),
    {
        self.flush()
    }
}

/// Appending slots flushes to the flushes appended.
proof fn lemma_flushed_slots_concat(a: Seq<NotifySlot>, b: Seq<NotifySlot>)
    ensures
        flushed_slots(a + b) == flushed_slots(a) + flushed_slots(b),
    decreases a.len(),
{
    if a.len() == 0 {
        assert(a + b =~= b);
        assert(flushed_slots(a) + flushed_slots(b) =~= flushed_slots(b));
    } else {
        lemma_flushed_slots_concat(a.drop_first(), b);
        assert((a + b).first() == a.first());
        assert((a + b).drop_first() =~= a.drop_first() + b);
        if a.first().closed {
        } else {
            assert(seq![notified(a.first())] + (flushed_slots(a.drop_first()) + flushed_slots(b))
                =~= (seq![notified(a.first())] + flushed_slots(a.drop_first())) + flushed_slots(
                b,
            ));
        }
    }
}

/// One slot flushes to itself notified, or to nothing if closed.
proof fn lemma_flushed_slots_one(s: NotifySlot)
    ensures
        !s.closed ==> flushed_slots(seq![s]) == seq![notified(s)],
        s.closed ==> flushed_slots(seq![s]) == Seq::<NotifySlot>::empty(),
{
    assert(seq![s].drop_first() =~= Seq::<NotifySlot>::empty());
    assert(flushed_slots(Seq::<NotifySlot>::empty()) =~= Seq::<NotifySlot>::empty());
    if !s.closed {
        assert(flushed_slots(seq![s]) =~= seq![notified(s)] + Seq::<NotifySlot>::empty());
        assert(seq![notified(s)] + Seq::<NotifySlot>::empty() =~= seq![notified(s)]);
    }
}

impl<T> Signal<T> {
    /// Creates a signal holding `value`, clean and with no subscribers.
    pub fn new(value: T) -> (r: Self)
        ensures
            r.model() == (SignalView {
                value,
                dirty: false,
                subscribers: Seq::<NotifySlot>::empty(),
                next_id: 0u64,
            }),
    {
        Signal { value, dirty: false, subscribers: Vec::new(), next_id: 0 }
    }

    /// Shared read access to the current value.
    pub fn read(&self) -> (r: &T)
        ensures
            *r == self.model().value,
    {
        &self.value
    }

    /// Applies `f` to the value under exclusive access, marks the signal
    /// dirty, and returns `f`'s second result.
    pub fn update<R, F: FnOnce(&T) -> (T, R)>(&mut self, f: F) -> (r: R)
        requires
            call_requires(f, (&old(self).value,)),
        ensures
            call_ensures(f, (&old(self).value,), (final(self).value, r)),
            final(self).model() == set_view(old(self).model(), final(self).value),
    {
        let (value, ret) = f(&self.value);
        self.value = value;
        self.dirty = true;
        ret
    }

    /// Stores a new value and marks the signal dirty.
    pub fn set(&mut self, value: T)
        ensures
            final(self).model() == set_view(old(self).model(), value),
    {
        self.value = value;
        self.dirty = true;
    }

    /// Registers a new subscriber and returns the handle it polls with.
    /// The new slot starts empty: no notification is pending.
    pub fn subscribe(&mut self) -> (id: u64)
        requires
            old(self).next_id < u64::MAX,
        ensures
            id == old(self).model().next_id,
            final(self).model() == (SignalView {
                subscribers: old(self).model().subscribers.push(
                    NotifySlot { id, pending: 0, closed: false },
                ),
                next_id: (old(self).model().next_id + 1) as u64,
                ..old(self).model()
            }),
    {
        let id = self.next_id;
        self.subscribers.push(NotifySlot { id, pending: 0, closed: false });
        self.next_id = self.next_id + 1;
        id
    }

    /// Delivers notifications: if the signal was mutated since the last
    /// flush, attempts a non-blocking send to every subscriber (a full
    /// slot silently keeps its one pending notification), drops every
    /// slot whose subscriber is gone, and marks the signal clean.
    /// Flushing a clean signal is a no-op.
    pub fn flush(&mut self)
        ensures
            final(self).model() == flush_view(old(self).model()),
    {
        if self.dirty {
            self.dirty = false;
            let ghost orig = self.subscribers@;
            let mut kept: Vec<NotifySlot> = Vec::new();
            let mut i: usize = 0;
            proof {
                assert(orig.take(0) =~= Seq::<NotifySlot>::empty());
                assert(kept@ =~= flushed_slots(orig.take(0)));
            }
            while i < self.subscribers.len()
                invariant
                    i <= self.subscribers@.len(),
                    self.subscribers@ == orig,
                    kept@ == flushed_slots(orig.take(i as int)),
                decreases self.subscribers@.len() - i,
            {
                let s = self.subscribers[i];
                if !s.closed {
                    kept.push(NotifySlot { pending: if s.pending == 0 { 1 } else { s.pending }, ..s });
                }
                proof {
                    assert(orig.take(i + 1) =~= orig.take(i as int) + seq![s]);
                    lemma_flushed_slots_concat(orig.take(i as int), seq![s]);
                    lemma_flushed_slots_one(s);
                    if !s.closed {
                        assert(kept@ =~= flushed_slots(orig.take(i as int)) + seq![notified(s)]);
                    } else {
                        assert(kept@ =~= flushed_slots(orig.take(i as int))
                            + Seq::<NotifySlot>::empty());
                    }
                }
                i = i + 1;
            }
            proof {
                assert(orig.take(orig.len() as int) =~= orig);
            }
            self.subscribers = kept;
        }
    }

    /// Polls the slot with the given handle: takes the pending
    /// notification out of it, reporting whether one was there.
    pub fn take_notification(&mut self, id: u64) -> (r: bool)
        requires
            old(self).model().wf(),
        ensures
            (forall|j: int|
                0 <= j < old(self).model().subscribers.len()
                    ==> (#[trigger] old(self).model().subscribers[j]).id != id)
                ==> (!r && *final(self) == *old(self)),
            forall|j: int|
                0 <= j < old(self).model().subscribers.len()
                    && (#[trigger] old(self).model().subscribers[j]).id == id
                ==> (r == (old(self).model().subscribers[j].pending > 0)
                    && final(self).model() == (SignalView {
                        subscribers: old(self).model().subscribers.update(
                            j,
                            NotifySlot { pending: 0, ..old(self).model().subscribers[j] },
                        ),
                        ..old(self).model()
                    })),
    {
        let mut i: usize = 0;
        while i < self.subscribers.len()
            invariant
                old(self).model().wf(),
                i <= self.subscribers@.len(),
                *self == *old(self),
                forall|j: int| 0 <= j < i ==> (#[trigger] self.subscribers@[j]).id != id,
            decreases self.subscribers@.len() - i,
        {
            if self.subscribers[i].id == id {
                let mut s = self.subscribers.remove(i);
                let had = s.pending > 0;
                s.pending = 0;
                self.subscribers.insert(i, s);
                proof {
                    let subs = old(self).model().subscribers;
                    assert(subs == old(self).subscribers@);
                    assert(self.subscribers@ =~= subs.update(
                        i as int,
                        NotifySlot { pending: 0, ..subs[i as int] },
                    ));
                    assert forall|j: int|
                        0 <= j < subs.len() && (#[trigger] subs[j]).id == id implies j
                        == i as int by {
                        if j < i as int {
                            assert(subs[j].id != subs[i as int].id);
                        }
                        if j > i as int {
                            assert(subs[i as int].id != subs[j].id);
                        }
                    }
                }
                return had;
            }
            i = i + 1;
        }
        false
    }

    /// Records that the subscriber with the given handle dropped its
    /// receiving end; its slot is removed at the next flush of a dirty
    /// signal.
    pub fn close_subscriber(&mut self, id: u64)
        requires
            old(self).model().wf(),
        ensures
            (forall|j: int|
                0 <= j < old(self).model().subscribers.len()
                    ==> (#[trigger] old(self).model().subscribers[j]).id != id)
                ==> *final(self) == *old(self),
            forall|j: int|
                0 <= j < old(self).model().subscribers.len()
                    && (#[trigger] old(self).model().subscribers[j]).id == id
                ==> final(self).model() == (SignalView {
                    subscribers: old(self).model().subscribers.update(
                        j,
                        NotifySlot { closed: true, ..old(self).model().subscribers[j] },
                    ),
                    ..old(self).model()
                }),
    {
        let mut i: usize = 0;
        while i < self.subscribers.len()
            invariant
                old(self).model().wf(),
                i <= self.subscribers@.len(),
                *self == *old(self),
                forall|j: int| 0 <= j < i ==> (#[trigger] self.subscribers@[j]).id != id,
            decreases self.subscribers@.len() - i,
        {
            if self.subscribers[i].id == id {
                let mut s = self.subscribers.remove(i);
                s.closed = true;
                self.subscribers.insert(i, s);
                proof {
                    let subs = old(self).model().subscribers;
                    assert(subs == old(self).subscribers@);
                    assert(self.subscribers@ =~= subs.update(
                        i as int,
                        NotifySlot { closed: true, ..subs[i as int] },
                    ));
                    assert forall|j: int|
                        0 <= j < subs.len() && (#[trigger] subs[j]).id == id implies j
                        == i as int by {
                        if j < i as int {
                            assert(subs[j].id != subs[i as int].id);
                        }
                        if j > i as int {
                            assert(subs[i as int].id != subs[j].id);
                        }
                    }
                }
                return ;
            }
            i = i + 1;
        }
    }
}

/// The state after a run of consecutive `set` calls.
pub open spec fn sets_folded<T>(m: SignalView<T>, values: Seq<T>) -> SignalView<T>
    decreases values.len(),
{
    if values.len() == 0 {
        m
    } else {
        sets_folded(set_view(m, values.first()), values.drop_first())
    }
}

/// Mutation never touches the notification slots: any run of `set` calls
/// leaves the subscribers exactly as they were, only the value and the
/// dirty flag change.
pub proof fn lemma_sets_keep_subscribers<T>(m: SignalView<T>, values: Seq<T>)
    ensures
        sets_folded(m, values).subscribers == m.subscribers,
        sets_folded(m, values).next_id == m.next_id,
        values.len() > 0 ==> sets_folded(m, values).dirty,
    decreases values.len(),
{
    if values.len() > 0 {
        lemma_sets_keep_subscribers(set_view(m, values.first()), values.drop_first());
    }
}

/// After a flush, every remaining slot holds exactly one pending
/// notification, and none of them is closed.
proof fn lemma_flushed_slots_pending(s: Seq<NotifySlot>)
    requires
        forall|i: int| 0 <= i < s.len() ==> (#[trigger] s[i]).pending <= 1,
    ensures
        forall|j: int|
            0 <= j < flushed_slots(s).len() ==> (#[trigger] flushed_slots(s)[j]).pending == 1,
        forall|j: int|
            0 <= j < flushed_slots(s).len() ==> !(#[trigger] flushed_slots(s)[j]).closed,
    decreases s.len(),
{
    if s.len() > 0 {
        assert(forall|i: int|
            0 <= i < s.drop_first().len() ==> (#[trigger] s.drop_first()[i]).pending <= 1);
        lemma_flushed_slots_pending(s.drop_first());
        let fs = flushed_slots(s);
        let rest = flushed_slots(s.drop_first());
        if s.first().closed {
            assert(fs == rest);
        } else {
            assert(s[0].pending <= 1);
            assert(fs == seq![notified(s.first())] + rest);
            assert forall|j: int| 0 <= j < fs.len() implies (#[trigger] fs[j]).pending == 1
                && !fs[j].closed by {
                if j == 0 {
                    assert(fs[0] == notified(s.first()));
                } else {
                    assert(fs[j] == rest[j - 1]);
                }
            }
        }
    }
}

/// Flushed slots keep at most one pending notification, carry ids drawn
/// from the original slots, and stay distinct when those were.
proof fn lemma_flushed_slots_wf(s: Seq<NotifySlot>)
    requires
        forall|i: int| 0 <= i < s.len() ==> (#[trigger] s[i]).pending <= 1,
        forall|i: int, j: int|
            #![trigger s[i], s[j]]
            0 <= i < j < s.len() ==> s[i].id != s[j].id,
    ensures
        forall|j: int|
            0 <= j < flushed_slots(s).len() ==> (#[trigger] flushed_slots(s)[j]).pending <= 1,
        forall|j: int|
            0 <= j < flushed_slots(s).len() ==> exists|i: int|
                0 <= i < s.len() && (#[trigger] s[i]).id == (#[trigger] flushed_slots(s)[j]).id,
        forall|i: int, j: int|
            #![trigger flushed_slots(s)[i], flushed_slots(s)[j]]
            0 <= i < j < flushed_slots(s).len() ==> flushed_slots(s)[i].id != flushed_slots(
                s,
            )[j].id,
    decreases s.len(),
{
    if s.len() > 0 {
        let rest = s.drop_first();
        assert(forall|i: int| 0 <= i < rest.len() ==> (#[trigger] rest[i]).pending <= 1);
        assert(forall|i: int, j: int|
            #![trigger rest[i], rest[j]]
            0 <= i < j < rest.len() ==> rest[i].id != rest[j].id) by {
            assert(forall|i: int| 0 <= i < rest.len() ==> rest[i] == s[i + 1]);
        }
        lemma_flushed_slots_wf(rest);
        let fs = flushed_slots(s);
        let fr = flushed_slots(rest);
        if s.first().closed {
            assert(fs == fr);
            assert forall|j: int|
                0 <= j < fs.len() implies exists|i: int|
                0 <= i < s.len() && (#[trigger] s[i]).id == (#[trigger] fs[j]).id by {
                let i0 = choose|i0: int| 0 <= i0 < rest.len() && rest[i0].id == fr[j].id;
                assert(s[i0 + 1].id == fs[j].id);
            }
        } else {
            assert(fs == seq![notified(s.first())] + fr);
            assert forall|j: int|
                0 <= j < fs.len() implies exists|i: int|
                0 <= i < s.len() && (#[trigger] s[i]).id == (#[trigger] fs[j]).id by {
                if j == 0 {
                    assert(s[0].id == fs[0].id);
                } else {
                    assert(fs[j] == fr[j - 1]);
                    let i0 = choose|i0: int| 0 <= i0 < rest.len() && rest[i0].id == fr[j - 1].id;
                    assert(s[i0 + 1].id == fs[j].id);
                }
            }
            assert forall|i: int, j: int|
                #![trigger fs[i], fs[j]]
                0 <= i < j < fs.len() implies fs[i].id != fs[j].id by {
                if i == 0 {
                    assert(fs[j] == fr[j - 1]);
                    let i0 = choose|i0: int| 0 <= i0 < rest.len() && rest[i0].id == fr[j - 1].id;
                    assert(s[0].id != s[i0 + 1].id);
                } else {
                    assert(fs[i] == fr[i - 1]);
                    assert(fs[j] == fr[j - 1]);
                }
            }
            assert forall|j: int| 0 <= j < fs.len() implies (#[trigger] fs[j]).pending <= 1 by {
                if j == 0 {
                    assert(s[0].pending <= 1);
                    assert(fs[0] == notified(s.first()));
                } else {
                    assert(fs[j] == fr[j - 1]);
                }
            }
        }
    }
}

/// Flushing preserves well-formedness: verified callers can keep polling
/// and closing slots after any number of flushes.
pub proof fn lemma_flush_preserves_wf<T>(m: SignalView<T>)
    requires
        m.wf(),
    ensures
        flush_view(m).wf(),
{
    if m.dirty {
        lemma_flushed_slots_wf(m.subscribers);
        let fs = flushed_slots(m.subscribers);
        assert forall|j: int|
            0 <= j < fs.len() implies (#[trigger] fs[j]).id < m.next_id by {
            let i0 = choose|i0: int|
                0 <= i0 < m.subscribers.len() && m.subscribers[i0].id == fs[j].id;
            assert(m.subscribers[i0].id < m.next_id);
        }
    }
}

/// Coalescing: however many times the value was mutated since the last
/// flush, one flush leaves every remaining subscriber exactly one pending
/// notification — three `set` calls produce one notification, not three.
pub proof fn lemma_notification_coalescing<T>(m: SignalView<T>, values: Seq<T>)
    requires
        m.wf(),
        values.len() > 0,
    ensures
        ({
            let after = flush_view(sets_folded(m, values));
            &&& !after.dirty
            &&& forall|j: int|
                0 <= j < after.subscribers.len() ==> (#[trigger] after.subscribers[j]).pending
                    == 1
        }),
{
    lemma_sets_keep_subscribers(m, values);
    lemma_flushed_slots_pending(m.subscribers);
}

/// Idempotence: flushing a signal that was not mutated since the previous
/// flush changes nothing — in particular it delivers no notification —
/// and two consecutive flushes do exactly what one does.
pub proof fn lemma_flush_idempotent<T>(m: SignalView<T>)
    ensures
        !m.dirty ==> flush_view(m) == m,
        flush_view(flush_view(m)) == flush_view(m),
{
}

} // verus!
