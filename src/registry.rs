//! The subscriber registry: each subscriber is the sending end of a bounded
//! queue of frames. Frames are offered without waiting, and a subscriber leaves
//! only when its liveness probe fails.
use tokio::sync::mpsc::{Receiver, Sender};
use vstd::prelude::*;

verus! {

/// tokio's sending end of a bounded queue, opaque here.
#[verifier::external_type_specification]
#[verifier::external_body]
#[verifier::reject_recursive_types(T)]
pub struct ExSender<T>(Sender<T>);

/// tokio's receiving end of a bounded queue, opaque here.
#[verifier::external_type_specification]
#[verifier::external_body]
#[verifier::reject_recursive_types(T)]
pub struct ExReceiver<T>(Receiver<T>);

/// The number of frames that the queue read through `rx` holds at most, as
/// fixed when it was made (what tokio's `Receiver::max_capacity` reports).
pub uninterp spec fn queue_capacity(rx: Receiver<Vec<u8>>) -> usize;

/// Relies on tokio::sync::mpsc::channel: a queue that holds at most `capacity`
/// frames; it panics when `capacity` is zero or above the semaphore's limit,
/// `usize::MAX >> 3`.
#[verifier::external_body]
pub(crate) fn bounded_queue(capacity: usize) -> (r: (Sender<Vec<u8>>, Receiver<Vec<u8>>))
    requires
        0 < capacity <= usize::MAX / 8,
    ensures
        queue_capacity(r.1) == capacity,
{
    tokio::sync::mpsc::channel(capacity)
}

/// Relies on tokio's `Clone` for `Sender`: another handle on the same queue.
pub assume_specification<T>[ <Sender<T> as Clone>::clone ](tx: &Sender<T>) -> Sender<T>;

/// Relies on tokio's Sender::try_send: it never waits, and reports whether the
/// frame was queued; a full queue or a dropped receiver makes it fail.
#[verifier::external_body]
fn try_send(tx: &Sender<Vec<u8>>, frame: Vec<u8>) -> (queued: bool) {
    tx.try_send(frame).is_ok()
}

/// One registered subscriber: its identifier and the sending end of its queue.
pub struct Subscriber {
    pub id: u64,
    pub tx: Sender<Vec<u8>>,
}

/// The identifiers of `subs`, in order.
pub open spec fn ids(subs: Seq<Subscriber>) -> Seq<u64> {
    subs.map_values(|s: Subscriber| s.id)
}

/// The subscribers of `subs` whose identifier is not in `gone`, in their order.
pub open spec fn retained(subs: Seq<Subscriber>, gone: Seq<u64>) -> Seq<Subscriber> {
    subs.filter(|s: Subscriber| !gone.contains(s.id))
}

/// The identifiers among `probed` whose probe failed (`alive` false at the
/// same position), in order.
pub open spec fn failed(probed: Seq<u64>, alive: Seq<bool>) -> Seq<u64>
    decreases probed.len(),
{
    if probed.len() == 0 || alive.len() == 0 {
        Seq::empty()
    } else {
        let rest = failed(probed.drop_last(), alive.drop_last());
        if alive.last() {
            rest
        } else {
            rest.push(probed.last())
        }
    }
}

/// No two subscribers of `subs` share an identifier.
pub open spec fn distinct_ids(subs: Seq<Subscriber>) -> bool {
    forall|i: int, j: int| 0 <= i < j < subs.len() ==> subs[i].id != subs[j].id
}

/// The registered subscribers, in order of registration.
pub struct Registry {
    subscribers: Vec<Subscriber>,
    /// The identifier tried first at the next registration.
    next_id: u64,
}

impl Registry {
    /// The registered subscribers, in order of registration.
    pub closed spec fn subscribers(&self) -> Seq<Subscriber> {
        self.subscribers@
    }

    /// Every subscriber has an identifier of its own.
    pub open spec fn wf(&self) -> bool {
        distinct_ids(self.subscribers())
    }

    /// An empty registry.
    pub fn new() -> (r: Registry)
        ensures
            r.wf(),
            r.subscribers() == Seq::<Subscriber>::empty(),
    {
        Registry { subscribers: Vec::new(), next_id: 0 }
    }

    /// The number of registered subscribers.
    pub fn len(&self) -> (r: usize)
        ensures
            r == self.subscribers().len(),
    {
        self.subscribers.len()
    }

    /// Registers the queue `tx` at the end of the list, under an identifier
    /// that no registered subscriber has, and returns that identifier.
    /// Identifiers are handed out in increasing order; only once the largest
    /// has been used is a free one searched for.
    pub fn add(&mut self, tx: Sender<Vec<u8>>) -> (id: u64)
        requires
            old(self).wf(),
        ensures
            final(self).wf(),
            !ids(old(self).subscribers()).contains(id),
            final(self).subscribers() == old(self).subscribers().push(Subscriber { id, tx }),
    {
        let id = if id_in_use(&self.subscribers, self.next_id) {
            free_id(&self.subscribers)
        } else {
            self.next_id
        };
        self.next_id = if id < u64::MAX {
            id + 1
        } else {
            0
        };
        let ghost before = self.subscribers@;
        self.subscribers.push(Subscriber { id, tx });
        proof {
            let subs = self.subscribers@;
            assert forall|a: int, b: int| 0 <= a < b < subs.len() implies subs[a].id
                != subs[b].id by {
                assert(subs[a] == before[a]);
                if b == before.len() {
                    assert(ids(before)[a] == before[a].id);
                }
            }
        }
        id
    }

    /// A copy of the subscriber list, each entry with its own handle on the
    /// subscriber's queue.
    pub fn snapshot(&self) -> (r: Vec<Subscriber>)
        ensures
            ids(r@) == ids(self.subscribers()),
    {
        let mut r: Vec<Subscriber> = Vec::new();
        let n = self.subscribers.len();
        let mut i: usize = 0;
        while i < n
            invariant
                n == self.subscribers@.len(),
                i <= n,
                ids(r@) == ids(self.subscribers@.take(i as int)),
            decreases n - i,
        {
            let s = &self.subscribers[i];
            let ghost before = r@;
            r.push(Subscriber { id: s.id, tx: s.tx.clone() });
            proof {
                assert(self.subscribers@.take(i + 1) =~= self.subscribers@.take(i as int).push(
                    self.subscribers@[i as int],
                ));
                assert(ids(r@) =~= ids(before).push(s.id));
                assert(ids(self.subscribers@.take(i + 1)) =~= ids(
                    self.subscribers@.take(i as int),
                ).push(s.id));
            }
            i = i + 1;
        }
        proof {
            assert(self.subscribers@.take(n as int) =~= self.subscribers@);
        }
        r
    }

    /// Removes the subscribers whose identifier is in `gone`; the others keep
    /// their order, and later registrations are untouched.
    pub fn remove(&mut self, gone: &Vec<u64>)
        requires
            old(self).wf(),
        ensures
            final(self).wf(),
            final(self).subscribers() == retained(old(self).subscribers(), gone@),
    {
        let ghost orig = self.subscribers@;
        let ghost keep = |s: Subscriber| !gone@.contains(s.id);
        let n = self.subscribers.len();
        let mut i: usize = 0;
        let mut k: usize = 0;
        proof {
            reveal(Seq::filter);
            assert(orig.take(0) =~= Seq::<Subscriber>::empty());
            assert(self.subscribers@.take(0) =~= Seq::<Subscriber>::empty());
        }
        while k < n
            invariant
                n == orig.len(),
                k <= n,
                i <= k,
                self.subscribers@.len() == i + (n - k),
                self.subscribers@.take(i as int) == orig.take(k as int).filter(keep),
                forall|m: int| 0 <= m < n - k ==> #[trigger] self.subscribers@[i + m] == orig[k + m],
                keep == (|s: Subscriber| !gone@.contains(s.id)),
            decreases n - k,
        {
            let ghost cur = self.subscribers@;
            proof {
                assert(cur[i + 0] == orig[k + 0]);
                assert(orig.take(k + 1).drop_last() =~= orig.take(k as int));
                assert(orig.take(k + 1).last() == orig[k as int]);
                reveal(Seq::filter);
            }
            let id = self.subscribers[i].id;
            if contains_id(gone, id) {
                let _dropped = self.subscribers.remove(i);
                proof {
                    assert(self.subscribers@.take(i as int) =~= cur.take(i as int));
                    assert forall|m: int| 0 <= m < n - (k + 1) implies #[trigger] self.subscribers@[i
                        + m] == orig[(k + 1) + m] by {
                        assert(self.subscribers@[i + m] == cur[i + (m + 1)]);
                    }
                }
            } else {
                proof {
                    assert(self.subscribers@.take(i + 1) =~= cur.take(i as int).push(
                        orig[k as int],
                    ));
                    assert forall|m: int| 0 <= m < n - (k + 1) implies #[trigger] self.subscribers@[(i
                        + 1) + m] == orig[(k + 1) + m] by {
                        assert(cur[i + (m + 1)] == orig[k + (m + 1)]);
                    }
                }
                i = i + 1;
            }
            k = k + 1;
        }
        proof {
            assert(orig.take(n as int) =~= orig);
            assert(self.subscribers@ =~= self.subscribers@.take(i as int));
            lemma_retained_wf(orig, gone@);
        }
    }
}

/// Whether `id` is among `ids`.
fn contains_id(ids: &Vec<u64>, id: u64) -> (r: bool)
    ensures
        r == ids@.contains(id),
{
    let n = ids.len();
    let mut i: usize = 0;
    while i < n
        invariant
            n == ids@.len(),
            i <= n,
            forall|j: int| 0 <= j < i ==> ids@[j] != id,
        decreases n - i,
    {
        if ids[i] == id {
            return true;
        }
        i = i + 1;
    }
    false
}

/// Whether some subscriber of `subs` has identifier `id`.
fn id_in_use(subs: &Vec<Subscriber>, id: u64) -> (r: bool)
    ensures
        r == ids(subs@).contains(id),
{
    let n = subs.len();
    let mut i: usize = 0;
    while i < n
        invariant
            n == subs@.len(),
            i <= n,
            forall|j: int| 0 <= j < i ==> subs@[j].id != id,
        decreases n - i,
    {
        if subs[i].id == id {
            proof {
                assert(ids(subs@)[i as int] == id);
            }
            return true;
        }
        i = i + 1;
    }
    proof {
        assert forall|j: int| 0 <= j < ids(subs@).len() implies ids(subs@)[j] != id by {
            assert(ids(subs@)[j] == subs@[j].id);
        }
    }
    false
}

/// The smallest identifier that no subscriber of `subs` has. Among the
/// `subs@.len() + 1` smallest identifiers one is always free.
fn free_id(subs: &Vec<Subscriber>) -> (r: u64)
    ensures
        !ids(subs@).contains(r),
        forall|j: int| 0 <= j < r ==> #[trigger] ids(subs@).contains(j as u64),
{
    let n = subs.len();
    let mut c: usize = 0;
    loop
        invariant
            n == subs@.len(),
            c <= n,
            forall|j: int| 0 <= j < c ==> #[trigger] ids(subs@).contains(j as u64),
        decreases n - c,
    {
        if !id_in_use(subs, c as u64) {
            return c as u64;
        }
        if c == n {
            proof {
                lemma_free_id_exists(subs@);
            }
            return c as u64;
        }
        c = c + 1;
    }
}

/// The `len + 1` smallest identifiers cannot all be taken by `len` subscribers.
proof fn lemma_free_id_exists(subs: Seq<Subscriber>)
    requires
        subs.len() <= u64::MAX,
    ensures
        exists|j: int| 0 <= j <= subs.len() && !#[trigger] ids(subs).contains(j as u64),
{
    broadcast use vstd::seq_lib::seq_to_set_is_finite;

    let n = subs.len() as int;
    if forall|j: int| 0 <= j <= n ==> #[trigger] ids(subs).contains(j as u64) {
        let as_int = subs.map_values(|s: Subscriber| s.id as int);
        let taken = as_int.to_set();
        let range = vstd::set_lib::set_int_range(0, n + 1);
        assert forall|j: int| range.contains(j) implies taken.contains(j) by {
            assert(ids(subs).contains(j as u64));
            let k = choose|k: int| 0 <= k < ids(subs).len() && ids(subs)[k] == j as u64;
            assert(ids(subs)[k] == subs[k].id);
            assert(as_int[k] == j);
        }
        vstd::set_lib::lemma_int_range(0, n + 1);
        vstd::set_lib::lemma_len_subset(range, taken);
        as_int.lemma_cardinality_of_set();
    }
}

/// Removing subscribers keeps identifiers distinct and keeps only registered subscribers.
proof fn lemma_retained_wf(subs: Seq<Subscriber>, gone: Seq<u64>)
    requires
        distinct_ids(subs),
    ensures
        distinct_ids(retained(subs, gone)),
        forall|i: int|
            0 <= i < retained(subs, gone).len() ==> subs.contains(#[trigger] retained(subs, gone)[i]),
    decreases subs.len(),
{
    reveal(Seq::filter);
    if subs.len() > 0 {
        let init = subs.drop_last();
        let last = subs.last();
        assert forall|i: int, j: int| 0 <= i < j < init.len() implies init[i].id != init[j].id by {
            assert(init[i] == subs[i] && init[j] == subs[j]);
        }
        lemma_retained_wf(init, gone);
        let r0 = retained(init, gone);
        assert forall|i: int| 0 <= i < r0.len() implies subs.contains(#[trigger] r0[i])
            && r0[i].id != last.id by {
            assert(init.contains(r0[i]));
            let j = choose|j: int| 0 <= j < init.len() && init[j] == r0[i];
            assert(subs[j] == r0[i]);
            assert(subs[subs.len() - 1] == last);
        }
        assert(subs.contains(last)) by {
            assert(subs[subs.len() - 1] == last);
        }
    }
}

/// Offers `frame` to every subscriber of `subs`, in order, without waiting on
/// any of them: a full queue or a departed receiver is a failed attempt for that
/// subscriber alone. The outcome of each attempt is returned at its position.
pub fn broadcast(subs: &Vec<Subscriber>, frame: &Vec<u8>) -> (delivered: Vec<bool>)
    ensures
        delivered@.len() == subs@.len(),
{
    let mut delivered: Vec<bool> = Vec::new();
    let n = subs.len();
    let mut i: usize = 0;
    while i < n
        invariant
            n == subs@.len(),
            i <= n,
            delivered@.len() == i,
        decreases n - i,
    {
        let queued = try_send(&subs[i].tx, frame.clone());
        delivered.push(queued);
        i = i + 1;
    }
    delivered
}

/// Sends the liveness probe, an empty frame, to every subscriber of `subs`;
/// the outcome of each probe is returned at its position.
pub fn probe(subs: &Vec<Subscriber>) -> (alive: Vec<bool>)
    ensures
        alive@.len() == subs@.len(),
{
    let empty: Vec<u8> = Vec::new();
    broadcast(subs, &empty)
}

/// An identifier is among those that failed exactly when it was probed at
/// some position whose probe failed.
pub proof fn lemma_failed_contains(probed: Seq<u64>, alive: Seq<bool>, id: u64)
    requires
        alive.len() == probed.len(),
    ensures
        failed(probed, alive).contains(id) <==> exists|i: int|
            0 <= i < probed.len() && probed[i] == id && !alive[i],
    decreases probed.len(),
{
    if probed.len() > 0 {
        let p0 = probed.drop_last();
        let a0 = alive.drop_last();
        lemma_failed_contains(p0, a0, id);
        let rest = failed(p0, a0);
        if exists|i: int| 0 <= i < probed.len() && probed[i] == id && !alive[i] {
            let i = choose|i: int| 0 <= i < probed.len() && probed[i] == id && !alive[i];
            if i < p0.len() {
                assert(p0[i] == probed[i] && a0[i] == alive[i]);
                let k = choose|k: int| 0 <= k < rest.len() && rest[k] == id;
                if !alive.last() {
                    assert(rest.push(probed.last())[k] == id);
                }
            } else {
                assert(rest.push(probed.last())[rest.len() as int] == id);
            }
        }
        if failed(probed, alive).contains(id) {
            if !alive.last() && probed.last() == id {
                assert(probed[probed.len() - 1] == id && !alive[alive.len() - 1]);
            } else {
                let k = choose|k: int|
                    0 <= k < failed(probed, alive).len() && failed(probed, alive)[k] == id;
                if !alive.last() {
                    assert(k < rest.len());
                    assert(rest[k] == id);
                }
                let i = choose|i: int| 0 <= i < p0.len() && p0[i] == id && !a0[i];
                assert(probed[i] == p0[i] && alive[i] == a0[i]);
            }
        }
    }
}

/// The sweep removes a subscriber exactly when its probe failed. Let `probed`
/// be the identifiers of a copy of the list taken before the probes, and
/// `alive` their outcomes, position by position. Removing the identifiers that
/// failed keeps a registered subscriber if and only if it was not probed (it
/// registered meanwhile) or its probe succeeded; the order is kept.
pub proof fn lemma_sweep_removes_exactly_failed(
    registered: Seq<Subscriber>,
    probed: Seq<u64>,
    alive: Seq<bool>,
    s: Subscriber,
)
    requires
        alive.len() == probed.len(),
        registered.contains(s),
    ensures
        retained(registered, failed(probed, alive)).contains(s) <==> !exists|i: int|
            0 <= i < probed.len() && probed[i] == s.id && !alive[i],
{
    lemma_failed_contains(probed, alive, s.id);
    let keep = |x: Subscriber| !failed(probed, alive).contains(x.id);
    broadcast use vstd::seq_lib::group_filter_ensures;

    let r = retained(registered, failed(probed, alive));
    if r.contains(s) {
        let k = choose|k: int| 0 <= k < r.len() && r[k] == s;
        assert(keep(r[k]));
    } else {
        let j = choose|j: int| 0 <= j < registered.len() && registered[j] == s;
        if keep(registered[j]) {
            assert(r.contains(registered[j]));
        }
    }
}

/// The identifiers of `subs`, in order.
pub fn identifiers(subs: &Vec<Subscriber>) -> (r: Vec<u64>)
    ensures
        r@ == ids(subs@),
{
    let mut r: Vec<u64> = Vec::new();
    let n = subs.len();
    let mut i: usize = 0;
    while i < n
        invariant
            n == subs@.len(),
            i <= n,
            r@ == ids(subs@.take(i as int)),
        decreases n - i,
    {
        proof {
            assert(ids(subs@.take(i + 1)) =~= ids(subs@.take(i as int)).push(subs@[i as int].id));
        }
        r.push(subs[i].id);
        i = i + 1;
    }
    proof {
        assert(subs@.take(n as int) =~= subs@);
    }
    r
}

} // verus!
