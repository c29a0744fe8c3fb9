//! The broadcast hub: the registry of subscribers, each with an outbound queue
//! of `QUEUE_CAPACITY` frames, and the operations of the hub on it. A hub that
//! several tasks share is held behind one lock by its owner; `emit_to`,
//! `publish` and `probe` work on a copy taken with `snapshot`, so that no frame
//! is offered while the lock is held.
use crate::error::{HttpError, STATUS_INTERNAL_SERVER_ERROR};
use crate::frame::{encode_frame, frame_of, has_delimiter};
use crate::registry::{
    bounded_queue, broadcast, distinct_ids, failed, ids, lemma_sweep_removes_exactly_failed,
    queue_capacity, retained, Registry, Subscriber,
};
use tokio::sync::mpsc::Receiver;
use vstd::prelude::*;
use vstd::string::{StringExecFns, StringSliceAdditionalSpecFns};
use vstd::utf8::encode_utf8;

verus! {

/// How many frames a subscriber's queue holds before further frames are dropped.
pub const QUEUE_CAPACITY: usize = 100;

/// The message of a payload that cannot be framed.
pub open spec fn unframable_message() -> Seq<char> {
    "Unable to serialize event: it holds a raw newline"@
}

/// The frame of `payload`, or the error that refuses it: a payload holding a
/// raw newline cannot be delimited.
pub fn frame_event(payload: &str) -> (r: Result<Vec<u8>, HttpError>)
    ensures
        has_delimiter(payload.spec_bytes()) <==> r is Err,
        r matches Ok(f) ==> f@ == frame_of(payload.spec_bytes()),
        r matches Err(e) ==> e.status == STATUS_INTERNAL_SERVER_ERROR && e.msg@
            == unframable_message(),
{
    match encode_frame(payload) {
        Ok(frame) => Ok(frame),
        Err(_) => Err(HttpError::internal("Unable to serialize event: it holds a raw newline")),
    }
}

/// Frames `payload` once and offers the frame to every subscriber of `targets`,
/// in order, without waiting on any of them. The outcome of each offer is
/// returned at its position; a full queue or a departed receiver fails that
/// offer alone and never the call. A payload that cannot be framed is an
/// error, and nothing is offered.
pub fn emit_to(targets: &Vec<Subscriber>, payload: &str) -> (r: Result<Vec<bool>, HttpError>)
    ensures
        has_delimiter(payload.spec_bytes()) <==> r is Err,
        r matches Ok(delivered) ==> delivered@.len() == targets@.len(),
        r matches Err(e) ==> e.status == STATUS_INTERNAL_SERVER_ERROR && e.msg@
            == unframable_message(),
{
    match frame_event(payload) {
        Ok(frame) => Ok(broadcast(targets, &frame)),
        Err(e) => Err(e),
    }
}

/// One tick of the sampler: offers the snapshot that was encoded as `encoded`
/// to `targets`, as `emit_to` does; when encoding failed, reports why and
/// offers nothing.
pub fn publish(targets: &Vec<Subscriber>, encoded: Result<String, String>) -> (r: Result<
    Vec<bool>,
    HttpError,
>)
    ensures
        encoded matches Err(why) ==> (r matches Err(e) && e.status
            == STATUS_INTERNAL_SERVER_ERROR && e.msg@ == "Unable to serialize event: "@ + why@),
        encoded matches Ok(p) ==> (r is Err <==> has_delimiter(encode_utf8(p@))),
        encoded is Ok && r is Err ==> r->Err_0.status == STATUS_INTERNAL_SERVER_ERROR
            && r->Err_0.msg@ == unframable_message(),
        r matches Ok(delivered) ==> delivered@.len() == targets@.len(),
{
    match encoded {
        Ok(payload) => emit_to(targets, payload.as_str()),
        Err(why) => {
            let m = String::from_str("Unable to serialize event: ").concat(why.as_str());
            Err(HttpError { status: STATUS_INTERNAL_SERVER_ERROR, msg: m })
        },
    }
}

/// The hub's registry of subscribers, in order of registration.
pub struct EventEmitter {
    registry: Registry,
}

impl EventEmitter {
    /// The registered subscribers, in order of registration.
    pub closed spec fn subscribers(&self) -> Seq<Subscriber> {
        self.registry.subscribers()
    }

    /// Every subscriber has an identifier of its own.
    pub open spec fn wf(&self) -> bool {
        distinct_ids(self.subscribers())
    }

    /// A hub with no subscriber.
    pub fn new() -> (r: EventEmitter)
        ensures
            r.wf(),
            r.subscribers() == Seq::<Subscriber>::empty(),
    {
        EventEmitter { registry: Registry::new() }
    }

    /// The number of registered subscribers.
    pub fn len(&self) -> (r: usize)
        ensures
            r == self.subscribers().len(),
    {
        self.registry.len()
    }

    /// Registers a new subscriber at the end of the list, under an identifier
    /// of its own, with a queue of `QUEUE_CAPACITY` frames, and returns the
    /// receiving end of that queue. It always succeeds.
    pub fn subscribe(&mut self) -> (r: Result<Receiver<Vec<u8>>, HttpError>)
        requires
            old(self).wf(),
        ensures
            final(self).wf(),
            r matches Ok(rx) && queue_capacity(rx) == QUEUE_CAPACITY,
            exists|s: Subscriber|
                !ids(old(self).subscribers()).contains(s.id) && final(self).subscribers()
                    == old(self).subscribers().push(s),
    {
        let (tx, rx) = bounded_queue(QUEUE_CAPACITY);
        let ghost before = self.subscribers();
        let _id = self.registry.add(tx);
        proof {
            let s = self.subscribers().last();
            assert(self.subscribers() == before.push(s));
        }
        Ok(rx)
    }

    /// A copy of the subscriber list, each entry with its own handle on the
    /// subscriber's queue, for offering frames without holding the hub.
    pub fn snapshot(&self) -> (r: Vec<Subscriber>)
        ensures
            ids(r@) == ids(self.subscribers()),
    {
        self.registry.snapshot()
    }

    /// Frames `payload` and offers it to every registered subscriber, as
    /// `emit_to` does. The hub is only read: no subscriber is removed, whatever
    /// the outcome of its offer.
    pub fn emit(&self, payload: &str) -> (r: Result<Vec<bool>, HttpError>)
        ensures
            has_delimiter(payload.spec_bytes()) <==> r is Err,
            r matches Ok(delivered) ==> delivered@.len() == self.subscribers().len(),
            r matches Err(e) ==> e.status == STATUS_INTERNAL_SERVER_ERROR && e.msg@
                == unframable_message(),
    {
        let targets = self.registry.snapshot();
        assert(ids(targets@).len() == targets@.len());
        emit_to(&targets, payload)
    }

    /// The removal step of the liveness sweep: given the identifiers that were
    /// probed and the outcomes of their probes, position by position, removes
    /// exactly the subscribers whose probe failed and returns their
    /// identifiers. Every other subscriber stays, in order, including those
    /// registered after the probed list was taken.
    pub fn check_connection(&mut self, probed: &Vec<u64>, alive: &Vec<bool>) -> (removed: Vec<u64>)
        requires
            old(self).wf(),
            alive@.len() == probed@.len(),
        ensures
            final(self).wf(),
            removed@ == failed(probed@, alive@),
            final(self).subscribers() == retained(old(self).subscribers(), removed@),
    {
        let removed = failed_of(probed, alive);
        self.registry.remove(&removed);
        removed
    }
}

/// The identifiers of `probed` whose probe failed, in order.
fn failed_of(probed: &Vec<u64>, alive: &Vec<bool>) -> (r: Vec<u64>)
    requires
        alive@.len() == probed@.len(),
    ensures
        r@ == failed(probed@, alive@),
{
    let mut r: Vec<u64> = Vec::new();
    let n = probed.len();
    let mut i: usize = 0;
    while i < n
        invariant
            n == probed@.len(),
            n == alive@.len(),
            i <= n,
            r@ == failed(probed@.take(i as int), alive@.take(i as int)),
        decreases n - i,
    {
        proof {
            assert(probed@.take(i + 1).drop_last() =~= probed@.take(i as int));
            assert(alive@.take(i + 1).drop_last() =~= alive@.take(i as int));
            assert(probed@.take(i + 1).last() == probed@[i as int]);
            assert(alive@.take(i + 1).last() == alive@[i as int]);
        }
        if !alive[i] {
            r.push(probed[i]);
        }
        i = i + 1;
    }
    proof {
        assert(probed@.take(n as int) =~= probed@);
        assert(alive@.take(n as int) =~= alive@);
    }
    r
}

/// A sweep over the whole registry keeps a subscriber exactly when its probe
/// succeeded. When the probed identifiers are those of the registry `subs`
/// itself (no registration in between), removing the failed ones keeps the
/// subscriber at position `i` if and only if `alive[i]`: a subscriber whose
/// probe fails, a disconnected one among them, is gone after that sweep, and
/// no other is.
pub proof fn lemma_sweep_keeps_exactly_alive(subs: Seq<Subscriber>, alive: Seq<bool>, i: int)
    requires
        distinct_ids(subs),
        alive.len() == subs.len(),
        0 <= i < subs.len(),
    ensures
        retained(subs, failed(ids(subs), alive)).contains(subs[i]) <==> alive[i],
{
    assert(subs.contains(subs[i]));
    assert(ids(subs)[i] == subs[i].id);
    lemma_sweep_removes_exactly_failed(subs, ids(subs), alive, subs[i]);
    if exists|j: int| 0 <= j < ids(subs).len() && ids(subs)[j] == subs[i].id && !alive[j] {
        let j = choose|j: int| 0 <= j < ids(subs).len() && ids(subs)[j] == subs[i].id && !alive[j];
        assert(ids(subs)[j] == subs[j].id);
        assert(j == i);
    }
}

} // verus!
