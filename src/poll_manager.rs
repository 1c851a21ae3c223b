//! The registry of active subscriptions and the decisions of a tick pass.
use vstd::prelude::*;

verus! {

/// One active subscription: who asked, what to evaluate, the last value seen
/// and the sending half of its delivery channel.
pub struct Subscription<M, T> {
    pub id: u64,
    pub meta: M,
    pub method: String,
    pub params: String,
    pub last: Option<String>,
    pub sink: T,
}

/// The registry: active subscriptions in the order they were created, and
/// the next identifier to hand out.
pub struct PollManager<M, T> {
    subs: Vec<Subscription<M, T>>,
    next_id: u64,
}

/// Identifiers strictly increase along the sequence and stay below `next`.
pub open spec fn ids_ordered<M, T>(subs: Seq<Subscription<M, T>>, next: u64) -> bool {
    &&& forall|i: int, j: int| 0 <= i < j < subs.len() ==> subs[i].id < subs[j].id
    &&& forall|i: int| 0 <= i < subs.len() ==> subs[i].id < next
}

/// Whether a subscription with identifier `id` is in the sequence.
pub open spec fn has_id<M, T>(subs: Seq<Subscription<M, T>>, id: u64) -> bool {
    exists|i: int| 0 <= i < subs.len() && subs[i].id == id
}

/// The sequence with the subscription of identifier `id` taken out.
pub open spec fn without_id<M, T>(subs: Seq<Subscription<M, T>>, id: u64) -> Seq<
    Subscription<M, T>,
> {
    subs.filter(|s: Subscription<M, T>| s.id != id)
}

proof fn lemma_filter_keeps_all<A>(s: Seq<A>, p: spec_fn(A) -> bool)
    requires
        forall|i: int| 0 <= i < s.len() ==> p(s[i]),
    ensures
        s.filter(p) == s,
    decreases s.len(),
{
    reveal(Seq::filter);
    if s.len() > 0 {
        lemma_filter_keeps_all(s.drop_last(), p);
        assert(s.drop_last().push(s.last()) =~= s);
    }
}

proof fn lemma_without_absent<M, T>(subs: Seq<Subscription<M, T>>, id: u64)
    requires
        !has_id(subs, id),
    ensures
        without_id(subs, id) == subs,
{
    lemma_filter_keeps_all(subs, |s: Subscription<M, T>| s.id != id);
}

proof fn lemma_without_at<M, T>(subs: Seq<Subscription<M, T>>, id: u64, i: int)
    requires
        0 <= i < subs.len(),
        subs[i].id == id,
        forall|j: int| 0 <= j < subs.len() && j != i ==> subs[j].id != id,
    ensures
        without_id(subs, id) == subs.remove(i),
{
    let p = |s: Subscription<M, T>| s.id != id;
    let a = subs.subrange(0, i);
    let b = subs.subrange(i + 1, subs.len() as int);
    let x = seq![subs[i]];
    assert(subs =~= a + x + b);
    Seq::filter_distributes_over_add(a + x, b, p);
    Seq::filter_distributes_over_add(a, x, p);
    lemma_filter_keeps_all(a, p);
    lemma_filter_keeps_all(b, p);
    reveal(Seq::filter);
    assert(x.drop_last() =~= Seq::<Subscription<M, T>>::empty());
    assert(Seq::<Subscription<M, T>>::empty().filter(p) =~= Seq::<Subscription<M, T>>::empty());
    assert(!p(x.last()));
    assert(x.filter(p) =~= Seq::<Subscription<M, T>>::empty());
    assert(subs.remove(i) =~= a + b);
}

/// Whether `v` is news to a subscription whose last value is `last`: it
/// differs from that value, or no value has been seen yet.
pub open spec fn differs(last: Option<String>, v: Seq<char>) -> bool {
    match last {
        Some(l) => l@ != v,
        None => true,
    }
}

/// The position of the subscription `id`, where there is one.
pub open spec fn index_of<M, T>(subs: Seq<Subscription<M, T>>, id: u64) -> int {
    choose|i: int| 0 <= i < subs.len() && subs[i].id == id
}

/// The subscription `s` with `v` as its last value.
pub open spec fn with_last<M, T>(s: Subscription<M, T>, v: String) -> Subscription<M, T> {
    Subscription {
        id: s.id,
        meta: s.meta,
        method: s.method,
        params: s.params,
        last: Some(v),
        sink: s.sink,
    }
}

/// The effect of one evaluation of subscription `id` (`None` when the
/// evaluation failed): the new registry contents and the value to announce.
/// Only a successful evaluation of a live subscription that brings a new
/// value changes anything; it replaces the last value and is announced.
pub open spec fn record_step<M, T>(
    subs: Seq<Subscription<M, T>>,
    id: u64,
    outcome: Option<String>,
) -> (Seq<Subscription<M, T>>, Option<String>) {
    match outcome {
        Some(v) => if has_id(subs, id) && differs(subs[index_of(subs, id)].last, v@) {
            let i = index_of(subs, id);
            (subs.update(i, with_last(subs[i], v)), Some(v))
        } else {
            (subs, None)
        },
        None => (subs, None),
    }
}

/// The effect of a tick pass that hands over the evaluations `outcomes` in
/// order: the new registry contents and the announcements, each with the
/// identifier of its subscription, in the order they were made.
pub open spec fn tick_step<M, T>(
    subs: Seq<Subscription<M, T>>,
    outcomes: Seq<(u64, Option<String>)>,
) -> (Seq<Subscription<M, T>>, Seq<(u64, String)>)
    decreases outcomes.len(),
{
    if outcomes.len() == 0 {
        (subs, Seq::empty())
    } else {
        let before = tick_step(subs, outcomes.drop_last());
        let id = outcomes.last().0;
        let step = record_step(before.0, id, outcomes.last().1);
        match step.1 {
            Some(v) => (step.0, before.1.push((id, v))),
            None => (step.0, before.1),
        }
    }
}

proof fn lemma_same_ids<M, T>(a: Seq<Subscription<M, T>>, b: Seq<Subscription<M, T>>, next: u64)
    requires
        ids_ordered(a, next),
        a.len() == b.len(),
        forall|i: int| 0 <= i < a.len() ==> a[i].id == b[i].id,
    ensures
        ids_ordered(b, next),
{
}

proof fn lemma_record_keeps_ids<M, T>(subs: Seq<Subscription<M, T>>, id: u64, o: Option<String>)
    ensures
        record_step(subs, id, o).0.len() == subs.len(),
        forall|i: int|
            0 <= i < subs.len() ==> #[trigger] record_step(subs, id, o).0[i].id == subs[i].id,
{
}

impl<M, T> PollManager<M, T> {
    pub closed spec fn entries(&self) -> Seq<Subscription<M, T>> {
        self.subs@
    }

    pub closed spec fn next(&self) -> u64 {
        self.next_id
    }

    pub open spec fn wf(&self) -> bool {
        ids_ordered(self.entries(), self.next())
    }

    pub open spec fn contains(&self, id: u64) -> bool {
        has_id(self.entries(), id)
    }

    /// An empty registry whose first identifier is 0.
    pub fn new() -> (r: Self)
        ensures
            r.wf(),
            r.entries() == Seq::<Subscription<M, T>>::empty(),
            r.next() == 0,
    {
        PollManager { subs: Vec::new(), next_id: 0 }
    }

    /// The identifier that the next subscription will get.
    pub fn next_id(&self) -> (r: u64)
        ensures
            r == self.next(),
    {
        self.next_id
    }

    /// The active subscriptions, oldest first.
    pub fn subscriptions(&self) -> (r: &Vec<Subscription<M, T>>)
        ensures
            r@ == self.entries(),
    {
        &self.subs
    }

    /// Stores a new subscription with no value seen yet, under a fresh
    /// identifier, which it returns.
    pub fn subscribe(&mut self, meta: M, method: String, params: String, sink: T) -> (id: u64)
        requires
            old(self).wf(),
            old(self).next() < u64::MAX,
        ensures
            final(self).wf(),
            id == old(self).next(),
            final(self).next() == old(self).next() + 1,
            !old(self).contains(id),
            final(self).entries() == old(self).entries().push(
                Subscription { id, meta, method, params, last: None, sink },
            ),
    {
        let id = self.next_id;
        self.subs.push(Subscription { id, meta, method, params, last: None, sink });
        self.next_id = id + 1;
        id
    }

    /// Removes the subscription `id` and says whether there was one.
    pub fn unsubscribe(&mut self, id: u64) -> (r: bool)
        requires
            old(self).wf(),
        ensures
            final(self).wf(),
            r == old(self).contains(id),
            final(self).next() == old(self).next(),
            final(self).entries() == without_id(old(self).entries(), id),
    {
        match self.find(id) {
            Some(i) => {
                let ghost before = self.subs@;
                proof {
                    assert forall|j: int| 0 <= j < before.len() && j != i implies before[j].id != id by {
                        assert(before[if j < i { j } else { i as int }].id < before[if j < i { i as int } else { j }].id);
                    }
                    lemma_without_at(before, id, i as int);
                }
                self.subs.remove(i);
                assert forall|a: int, b: int| 0 <= a < b < self.subs@.len() implies
                    self.subs@[a].id < self.subs@[b].id by {
                    let a0 = if a < i { a } else { a + 1 };
                    let b0 = if b < i { b } else { b + 1 };
                    assert(before[a0].id < before[b0].id);
                }
                true
            },
            None => {
                proof {
                    lemma_without_absent(self.subs@, id);
                }
                false
            },
        }
    }

    /// The position of subscription `id`, if it is active.
    fn find(&self, id: u64) -> (r: Option<usize>)
        requires
            self.wf(),
        ensures
            r is None <==> !self.contains(id),
            r matches Some(i) ==> i < self.entries().len() && i == index_of(self.entries(), id)
                && self.entries()[i as int].id == id,
    {
        let mut i: usize = 0;
        while i < self.subs.len()
            invariant
                self.wf(),
                0 <= i <= self.subs.len(),
                forall|j: int| 0 <= j < i ==> self.subs@[j].id != id,
            decreases self.subs.len() - i,
        {
            if self.subs[i].id == id {
                proof {
                    let s = self.subs@;
                    assert(has_id(s, id));
                    let k = index_of(s, id);
                    if k != i {
                        assert(s[if k < i { k } else { i as int }].id < s[if k < i { i as int } else { k }].id);
                    }
                }
                return Some(i);
            }
            i = i + 1;
        }
        None
    }

    /// Takes in one evaluation of subscription `id` (`None` when it failed)
    /// and returns the value to announce, if any.
    pub fn record(&mut self, id: u64, outcome: Option<String>) -> (r: Option<String>)
        requires
            old(self).wf(),
        ensures
            final(self).wf(),
            final(self).next() == old(self).next(),
            (final(self).entries(), r) == record_step(old(self).entries(), id, outcome),
    {
        let v = match outcome {
            Some(v) => v,
            None => return None,
        };
        let i = match self.find(id) {
            Some(i) => i,
            None => return None,
        };
        let same = match &self.subs[i].last {
            Some(l) => *l == v,
            None => false,
        };
        if same {
            return None;
        }
        let ghost before = self.subs@;
        let announced = v.clone();
        let mut s = self.subs.remove(i);
        s.last = Some(v);
        self.subs.insert(i, s);
        proof {
            assert(self.subs@ =~= before.update(i as int, with_last(before[i as int], announced)));
            lemma_same_ids(before, self.subs@, self.next_id);
        }
        Some(announced)
    }


    /// Takes in the evaluations of one tick pass, in order, and returns the
    /// announcements it makes.
    pub fn tick(&mut self, outcomes: &Vec<(u64, Option<String>)>) -> (r: Vec<(u64, String)>)
        requires
            old(self).wf(),
        ensures
            final(self).wf(),
            final(self).next() == old(self).next(),
            (final(self).entries(), r@) == tick_step(old(self).entries(), outcomes@),
    {
        let mut notes: Vec<(u64, String)> = Vec::new();
        let mut k: usize = 0;
        while k < outcomes.len()
            invariant
                self.wf(),
                self.next_id == old(self).next_id,
                0 <= k <= outcomes.len(),
                (self.subs@, notes@) == tick_step(old(self).subs@, outcomes@.take(k as int)),
            decreases outcomes.len() - k,
        {
            let id = outcomes[k].0;
            let outcome = match &outcomes[k].1 {
                Some(v) => Some(v.clone()),
                None => None,
            };
            let r = self.record(id, outcome);
            match r {
                Some(v) => notes.push((id, v)),
                None => {},
            }
            proof {
                assert(outcomes@.take(k as int + 1).drop_last() =~= outcomes@.take(k as int));
            }
            k = k + 1;
        }
        proof {
            assert(outcomes@.take(k as int) =~= outcomes@);
        }
        notes
    }
}


proof fn lemma_index_unique<M, T>(subs: Seq<Subscription<M, T>>, next: u64, id: u64, i: int)
    requires
        ids_ordered(subs, next),
        0 <= i < subs.len(),
        subs[i].id == id,
    ensures
        has_id(subs, id),
        index_of(subs, id) == i,
{
    assert(has_id(subs, id));
    let k = index_of(subs, id);
    if k != i {
        assert(subs[if k < i { k } else { i }].id < subs[if k < i { i } else { k }].id);
    }
}

/// No two active subscriptions share an identifier, and every active
/// identifier lies below the next one to be handed out, so `subscribe`
/// never returns an identifier that is in use or was returned before.
pub proof fn lemma_active_ids_distinct<M, T>(m: PollManager<M, T>)
    requires
        m.wf(),
    ensures
        forall|i: int, j: int|
            0 <= i < m.entries().len() && 0 <= j < m.entries().len() && i != j
                ==> m.entries()[i].id != m.entries()[j].id,
        forall|i: int| 0 <= i < m.entries().len() ==> m.entries()[i].id < m.next(),
{
    assert forall|i: int, j: int|
        0 <= i < m.entries().len() && 0 <= j < m.entries().len() && i != j implies
        m.entries()[i].id != m.entries()[j].id by {
        if i < j {
            assert(m.entries()[i].id < m.entries()[j].id);
        } else {
            assert(m.entries()[j].id < m.entries()[i].id);
        }
    }
}

/// Identifiers are handed out in increasing order: once `subscribe` has
/// returned `a`, leaving the next identifier at `a + 1`, any identifier `b`
/// it returns later, from a registry whose next identifier has not gone
/// down, is greater than `a`.
pub proof fn lemma_later_id_greater<M, T>(
    a: u64,
    after_a: PollManager<M, T>,
    before_b: PollManager<M, T>,
    b: u64,
)
    requires
        after_a.next() == a + 1,
        before_b.next() >= after_a.next(),
        b == before_b.next(),
    ensures
        a < b,
{
}

/// An identifier that was never handed out names no subscription, so
/// unsubscribing it returns `false`.
pub proof fn lemma_unissued_absent<M, T>(m: PollManager<M, T>, id: u64)
    requires
        m.wf(),
        id >= m.next(),
    ensures
        !m.contains(id),
{
}

/// Once removed, a subscription is gone: a second unsubscribe of the same
/// identifier finds nothing and changes nothing.
pub proof fn lemma_unsubscribe_twice<M, T>(subs: Seq<Subscription<M, T>>, id: u64)
    ensures
        !has_id(without_id(subs, id), id),
        without_id(without_id(subs, id), id) == without_id(subs, id),
{
    let once = without_id(subs, id);
    assert forall|i: int| 0 <= i < once.len() implies once[i].id != id by {
        subs.lemma_filter_pred(|s: Subscription<M, T>| s.id != id, i);
    }
    lemma_without_absent(once, id);
}

/// A value that was just recorded for a subscription is not announced again
/// when the next evaluation gives the same value.
pub proof fn lemma_repeat_silent<M, T>(
    subs: Seq<Subscription<M, T>>,
    next: u64,
    id: u64,
    v: String,
    w: String,
)
    requires
        ids_ordered(subs, next),
        v@ == w@,
    ensures
        record_step(record_step(subs, id, Some(v)).0, id, Some(w)) == (
            record_step(subs, id, Some(v)).0,
            None::<String>,
        ),
{
    let once = record_step(subs, id, Some(v)).0;
    lemma_record_keeps_ids(subs, id, Some(v));
    lemma_same_ids(subs, once, next);
    if has_id(subs, id) {
        let i = index_of(subs, id);
        lemma_index_unique(subs, next, id, i);
        lemma_index_unique(once, next, id, i);
    }
}

/// When a live subscription's value changes between two evaluations, the
/// second one announces exactly the new value and keeps it as the last one.
pub proof fn lemma_change_announced<M, T>(
    subs: Seq<Subscription<M, T>>,
    next: u64,
    id: u64,
    v: String,
    w: String,
)
    requires
        ids_ordered(subs, next),
        has_id(subs, id),
        v@ != w@,
    ensures
        ({
            let once = record_step(subs, id, Some(v)).0;
            let twice = record_step(once, id, Some(w));
            &&& twice.1 == Some(w)
            &&& twice.0 == once.update(index_of(subs, id), with_last(once[index_of(subs, id)], w))
        }),
{
    let once = record_step(subs, id, Some(v)).0;
    let i = index_of(subs, id);
    lemma_index_unique(subs, next, id, choose|k: int| 0 <= k < subs.len() && subs[k].id == id);
    lemma_record_keeps_ids(subs, id, Some(v));
    lemma_same_ids(subs, once, next);
    lemma_index_unique(once, next, id, i);
}

/// A failed evaluation has no effect on a tick pass: the pass ends in the
/// same state, with the same announcements, as if it had not been there.
pub proof fn lemma_failure_isolated<M, T>(
    subs: Seq<Subscription<M, T>>,
    before: Seq<(u64, Option<String>)>,
    id: u64,
    after: Seq<(u64, Option<String>)>,
)
    ensures
        tick_step(subs, before + seq![(id, None::<String>)] + after) == tick_step(
            subs,
            before + after,
        ),
    decreases after.len(),
{
    let with = before + seq![(id, None::<String>)] + after;
    if after.len() == 0 {
        assert(with.drop_last() =~= before);
        assert(before + after =~= before);
    } else {
        lemma_failure_isolated(subs, before, id, after.drop_last());
        assert(with.drop_last() =~= before + seq![(id, None::<String>)] + after.drop_last());
        assert((before + after).drop_last() =~= before + after.drop_last());
    }
}

} // verus!
