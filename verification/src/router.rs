//! The request router: a table of pending request ids, and the
//! demultiplexing of every inbound message.
//!
//! A response whose id is in the table is delivered once and its entry
//! consumed; a response whose id is not in the table is dropped without
//! raising, since a timed-out caller may already be gone. Callback
//! requests and log messages never touch the table.
use vstd::prelude::*;

verus! {

use crate::incoming::{IncomingMessage, IncomingMessageV, Log, LogV};
use crate::errors::PklError;

/// One registered wait: the request id and the evaluator it belongs to.
#[derive(Debug, Clone, Copy, PartialEq, Eq, Structural)]
pub struct PendingRequest {
    pub request_id: i64,
    pub evaluator_id: i64,
}

/// The request ids of a pending table, in registration order.
pub open spec fn ids_of(s: Seq<PendingRequest>) -> Seq<int> {
    Seq::new(s.len(), |i: int| s[i].request_id as int)
}

/// No request id occurs twice.
pub open spec fn unique_ids(p: Seq<int>) -> bool {
    forall|i: int, j: int| 0 <= i < j < p.len() ==> p[i] != p[j]
}

/// `p` without its first occurrence of `id`.
pub open spec fn remove_id(p: Seq<int>, id: int) -> Seq<int>
    decreases p,
{
    if p.len() == 0 {
        Seq::empty()
    } else if p.first() == id {
        p.drop_first()
    } else {
        seq![p.first()] + remove_id(p.drop_first(), id)
    }
}

pub proof fn lemma_remove_id_at(p: Seq<int>, id: int, i: int)
    requires
        0 <= i < p.len(),
        p[i] == id,
        forall|j: int| 0 <= j < i ==> p[j] != id,
    ensures
        remove_id(p, id) == p.take(i) + p.skip(i + 1),
    decreases i,
{
    if i == 0 {
        assert(remove_id(p, id) == p.drop_first());
        assert(p.drop_first() =~= p.take(0) + p.skip(1));
    } else {
        lemma_remove_id_at(p.drop_first(), id, i - 1);
        assert(remove_id(p, id) == seq![p.first()] + (p.drop_first().take(i - 1) + p.drop_first(
        ).skip(i)));
        assert(seq![p.first()] + (p.drop_first().take(i - 1) + p.drop_first().skip(i)) =~= p.take(
            i,
        ) + p.skip(i + 1));
    }
}

/// Removing an id from a duplicate-free table removes it for good, and
/// keeps every other id and the uniqueness.
pub proof fn lemma_remove_id_props(p: Seq<int>, id: int)
    requires
        unique_ids(p),
    ensures
        !remove_id(p, id).contains(id),
        forall|x: int| x != id ==> (remove_id(p, id).contains(x) <==> p.contains(x)),
        unique_ids(remove_id(p, id)),
    decreases p,
{
    if p.len() > 0 {
        assert(forall|i: int, j: int|
            0 <= i < j < p.drop_first().len() ==> p.drop_first()[i] != p.drop_first()[j]);
        lemma_remove_id_props(p.drop_first(), id);
        let r = remove_id(p, id);
        if p.first() == id {
            assert(r == p.drop_first());
            assert forall|k: int| 0 <= k < r.len() implies r[k] != id by {
                assert(p[k + 1] == r[k]);
                assert(p[0] == id);
            }
            assert(!r.contains(id));
            assert forall|x: int| x != id implies (r.contains(x) <==> p.contains(x)) by {
                if p.contains(x) {
                    let w = choose|w: int| 0 <= w < p.len() && p[w] == x;
                    assert(w != 0);
                    assert(r[w - 1] == x);
                }
                if r.contains(x) {
                    let w = choose|w: int| 0 <= w < r.len() && r[w] == x;
                    assert(p[w + 1] == x);
                }
            }
        } else {
            let rr = remove_id(p.drop_first(), id);
            assert(r == seq![p.first()] + rr);
            assert forall|k: int| 0 <= k < r.len() implies r[k] != id by {
                if k == 0 {
                } else {
                    assert(r[k] == rr[k - 1]);
                }
            }
            assert(!r.contains(id));
            assert forall|x: int| x != id implies (r.contains(x) <==> p.contains(x)) by {
                if p.contains(x) {
                    let w = choose|w: int| 0 <= w < p.len() && p[w] == x;
                    if w == 0 {
                        assert(r[0] == x);
                    } else {
                        assert(p.drop_first()[w - 1] == x);
                        assert(p.drop_first().contains(x));
                        assert(rr.contains(x));
                        let w2 = choose|w2: int| 0 <= w2 < rr.len() && rr[w2] == x;
                        assert(r[w2 + 1] == x);
                    }
                }
                if r.contains(x) {
                    let w = choose|w: int| 0 <= w < r.len() && r[w] == x;
                    if w == 0 {
                        assert(p[0] == x);
                    } else {
                        assert(rr[w - 1] == x);
                        assert(rr.contains(x));
                        assert(p.drop_first().contains(x));
                        let w2 = choose|w2: int|
                            0 <= w2 < p.drop_first().len() && p.drop_first()[w2] == x;
                        assert(p[w2 + 1] == x);
                    }
                }
            }
            // uniqueness of r: head differs from id-free tail entries of p
            assert forall|i: int, j: int| 0 <= i < j < r.len() implies r[i] != r[j] by {
                if i == 0 {
                    assert(r[j] == rr[j - 1]);
                    assert(rr.contains(rr[j - 1]));
                    if rr[j - 1] != id {
                        assert(p.drop_first().contains(rr[j - 1]));
                        let w = choose|w: int|
                            0 <= w < p.drop_first().len() && p.drop_first()[w] == rr[j - 1];
                        assert(p[w + 1] == rr[j - 1]);
                        assert(p[0] != p[w + 1]);
                    }
                } else {
                    assert(r[i] == rr[i - 1]);
                    assert(r[j] == rr[j - 1]);
                }
            }
        }
    }
}

/// Whether `m` is a direct response to a client request.
pub open spec fn is_response(m: IncomingMessageV) -> bool {
    m is CreateEvaluatorResponse || m is EvaluateResponse
}

/// The request id a response answers.
pub open spec fn response_id(m: IncomingMessageV) -> int {
    match m {
        IncomingMessageV::CreateEvaluatorResponse(x) => x.request_id,
        IncomingMessageV::EvaluateResponse(x) => x.request_id,
        _ => 0,
    }
}

/// What the router does with one inbound message.
#[derive(Debug, PartialEq)]
pub enum Routed {
    /// A response matching a pending request: hand it to that caller.
    Deliver(i64, IncomingMessage),
    /// A server-initiated callback: answer it through the registered
    /// reader capability and send the reply back.
    Callback(IncomingMessage),
    /// An unsolicited log line: forward to the logging sink.
    LogMessage(Log),
    /// A response no caller is waiting for: dropped, with its id.
    DroppedLate(i64),
}

pub enum RoutedV {
    Deliver(int, IncomingMessageV),
    Callback(IncomingMessageV),
    LogMessage(LogV),
    DroppedLate(int),
}

impl View for Routed {
    type V = RoutedV;

    open spec fn view(&self) -> RoutedV {
        match self {
            Routed::Deliver(id, m) => RoutedV::Deliver(*id as int, m@),
            Routed::Callback(m) => RoutedV::Callback(m@),
            Routed::LogMessage(l) => RoutedV::LogMessage(l@),
            Routed::DroppedLate(id) => RoutedV::DroppedLate(*id as int),
        }
    }
}

/// The routing decision and the table it leaves behind.
pub open spec fn spec_route(pending: Seq<int>, m: IncomingMessageV) -> (Seq<int>, RoutedV) {
    if is_response(m) {
        let id = response_id(m);
        if pending.contains(id) {
            (remove_id(pending, id), RoutedV::Deliver(id, m))
        } else {
            (pending, RoutedV::DroppedLate(id))
        }
    } else {
        match m {
            IncomingMessageV::Log(l) => (pending, RoutedV::LogMessage(l)),
            _ => (pending, RoutedV::Callback(m)),
        }
    }
}

/// At most one delivery per request id: once a response is delivered,
/// routing another frame with the same id drops it without raising.
pub proof fn lemma_at_most_one_delivery(pending: Seq<int>, m: IncomingMessageV)
    requires
        unique_ids(pending),
        is_response(m),
    ensures
        ({
            let (p1, a1) = spec_route(pending, m);
            let (p2, a2) = spec_route(p1, m);
            a1 is Deliver ==> a2 == RoutedV::DroppedLate(response_id(m))
        }),
{
    let id = response_id(m);
    if pending.contains(id) {
        lemma_remove_id_props(pending, id);
    }
}

/// Whether `m` is a server-initiated callback request.
pub open spec fn is_callback(m: IncomingMessageV) -> bool {
    m is ReadResource || m is ReadModule || m is ListResources || m is ListModules
}

/// The routing of a whole traffic sequence, message by message: the
/// table each step leaves behind feeds the next, and the actions come
/// back in arrival order.
pub open spec fn route_trace(pending: Seq<int>, msgs: Seq<IncomingMessageV>) -> (
    Seq<int>,
    Seq<RoutedV>,
)
    decreases msgs,
{
    if msgs.len() == 0 {
        (pending, Seq::empty())
    } else {
        let (p1, a1) = spec_route(pending, msgs.first());
        let (p2, rest) = route_trace(p1, msgs.drop_first());
        (p2, seq![a1] + rest)
    }
}

/// Routing answers one action per message, and passes every callback
/// through at its own position: callback replies can only be issued in
/// the order the engine issued the callbacks.
pub proof fn lemma_trace_callbacks_in_order(pending: Seq<int>, msgs: Seq<IncomingMessageV>)
    ensures
        ({
            let (pf, acts) = route_trace(pending, msgs);
            acts.len() == msgs.len() && forall|i: int|
                0 <= i < msgs.len() && is_callback(#[trigger] msgs[i]) ==> acts[i]
                    == RoutedV::Callback(msgs[i])
        }),
    decreases msgs,
{
    if msgs.len() > 0 {
        let (p1, a1) = spec_route(pending, msgs.first());
        lemma_trace_callbacks_in_order(p1, msgs.drop_first());
        let (pf, acts) = route_trace(pending, msgs);
        let (pf2, rest) = route_trace(p1, msgs.drop_first());
        assert forall|i: int|
            0 <= i < msgs.len() && is_callback(#[trigger] msgs[i]) implies acts[i]
            == RoutedV::Callback(msgs[i]) by {
            if i == 0 {
                assert(acts[0] == a1);
            } else {
                assert(acts[i] == rest[i - 1]);
                assert(msgs.drop_first()[i - 1] == msgs[i]);
            }
        }
    }
}

/// A response whose id is pending, and which no earlier message in the
/// traffic answers, is delivered exactly at its own position: earlier
/// callbacks, logs, and responses to other requests do not consume its
/// table entry.
pub proof fn lemma_trace_delivery_position(
    pending: Seq<int>,
    msgs: Seq<IncomingMessageV>,
    k: int,
)
    requires
        unique_ids(pending),
        0 <= k < msgs.len(),
        is_response(msgs[k]),
        pending.contains(response_id(msgs[k])),
        forall|i: int|
            0 <= i < k ==> !(is_response(#[trigger] msgs[i]) && response_id(msgs[i])
                == response_id(msgs[k])),
    ensures
        ({
            let (pf, acts) = route_trace(pending, msgs);
            acts[k] == RoutedV::Deliver(response_id(msgs[k]), msgs[k])
        }),
    decreases msgs,
{
    let id = response_id(msgs[k]);
    let (p1, a1) = spec_route(pending, msgs.first());
    let (pf, acts) = route_trace(pending, msgs);
    let (pf2, rest) = route_trace(p1, msgs.drop_first());
    if k == 0 {
        assert(acts[0] == a1);
    } else {
        // The first message leaves the entry for `id` in place.
        if is_response(msgs.first()) {
            let other = response_id(msgs.first());
            assert(other != id);
            if pending.contains(other) {
                lemma_remove_id_props(pending, other);
                assert(p1 == remove_id(pending, other));
                assert(p1.contains(id));
                assert(unique_ids(p1));
            }
        }
        assert(msgs.drop_first()[k - 1] == msgs[k]);
        assert(forall|i: int| 0 <= i < k - 1 ==> msgs.drop_first()[i] == msgs[i + 1]);
        lemma_trace_delivery_position(p1, msgs.drop_first(), k - 1);
        lemma_trace_callbacks_in_order(p1, msgs.drop_first());
        assert(rest.len() == msgs.drop_first().len());
        assert(acts[k] == rest[k - 1]);
    }
}

/// One evaluate exchange in order: for traffic made of any callbacks
/// followed by the terminal response, routing yields exactly the
/// callbacks, in the order the engine issued them, and then the one
/// delivery of the response - the caller's wait can only resolve after
/// every callback was passed through for answering.
pub proof fn lemma_exchange_order(
    pending: Seq<int>,
    callbacks: Seq<IncomingMessageV>,
    resp: IncomingMessageV,
)
    requires
        unique_ids(pending),
        forall|i: int| 0 <= i < callbacks.len() ==> is_callback(#[trigger] callbacks[i]),
        is_response(resp),
        pending.contains(response_id(resp)),
    ensures
        ({
            let (pf, acts) = route_trace(pending, callbacks.push(resp));
            acts.len() == callbacks.len() + 1 && (forall|i: int|
                0 <= i < callbacks.len() ==> acts[i] == RoutedV::Callback(
                    #[trigger] callbacks[i],
                )) && acts.last() == RoutedV::Deliver(response_id(resp), resp)
        }),
{
    let msgs = callbacks.push(resp);
    lemma_trace_callbacks_in_order(pending, msgs);
    let (pf, acts) = route_trace(pending, msgs);
    assert forall|i: int| 0 <= i < callbacks.len() implies acts[i] == RoutedV::Callback(
        #[trigger] callbacks[i],
    ) by {
        assert(msgs[i] == callbacks[i]);
        assert(is_callback(msgs[i]));
    }
    assert forall|i: int|
        0 <= i < callbacks.len() implies !(is_response(#[trigger] msgs[i]) && response_id(
        msgs[i],
    ) == response_id(resp)) by {
        assert(msgs[i] == callbacks[i]);
        assert(is_callback(msgs[i]));
    }
    assert(msgs[callbacks.len() as int] == resp);
    lemma_trace_delivery_position(pending, msgs, callbacks.len() as int);
}

/// The demultiplexer: pending requests keyed by id, each consumed by
/// exactly one delivery.
#[derive(Debug, PartialEq)]
pub struct Router {
    pending: Vec<PendingRequest>,
}

impl Router {
    /// The pending request ids, in registration order.
    pub closed spec fn pending_ids(self) -> Seq<int> {
        ids_of(self.pending@)
    }

    /// The table holds each id once.
    pub closed spec fn wf(self) -> bool {
        unique_ids(self.pending_ids())
    }

    /// An empty table.
    pub fn new() -> (r: Router)
        ensures
            r.pending_ids() == Seq::<int>::empty(),
            r.wf(),
    {
        let r = Router { pending: Vec::new() };
        proof {
            assert(r.pending_ids() =~= Seq::<int>::empty());
        }
        r
    }

    /// Whether a caller is waiting on `request_id`.
    pub fn contains(&self, request_id: i64) -> (r: bool)
        ensures
            r == self.pending_ids().contains(request_id as int),
    {
        let n = self.pending.len();
        for i in 0..n
            invariant
                n == self.pending@.len(),
                forall|j: int| 0 <= j < i ==> ids_of(self.pending@)[j] != request_id as int,
        {
            if self.pending[i].request_id == request_id {
                proof {
                    assert(ids_of(self.pending@)[i as int] == request_id as int);
                }
                return true;
            }
            proof {
                assert(ids_of(self.pending@)[i as int] == self.pending@[i as int].request_id as int);
            }
        }
        proof {
            if self.pending_ids().contains(request_id as int) {
                let w = choose|w: int|
                    0 <= w < self.pending_ids().len() && self.pending_ids()[w]
                        == request_id as int;
            }
        }
        false
    }

    /// Registers a wait before its request frame is sent. A request id
    /// already in the table is a collision and is rejected, not
    /// overwritten.
    pub fn register(&mut self, request_id: i64, evaluator_id: i64) -> (r: Result<(), PklError>)
        requires
            old(self).wf(),
        ensures
            final(self).wf(),
            match r {
                Ok(()) => !old(self).pending_ids().contains(request_id as int)
                    && final(self).pending_ids() == old(self).pending_ids().push(
                    request_id as int,
                ),
                Err(e) => e == PklError::DuplicateRequestId && old(self).pending_ids().contains(
                    request_id as int,
                ) && *final(self) == *old(self),
            },
    {
        if self.contains(request_id) {
            return Err(PklError::DuplicateRequestId);
        }
        self.pending.push(PendingRequest { request_id, evaluator_id });
        proof {
            assert(self.pending_ids() =~= old(self).pending_ids().push(request_id as int));
            let p = self.pending_ids();
            assert forall|i: int, j: int| 0 <= i < j < p.len() implies p[i] != p[j] by {
                if j == p.len() - 1 {
                    assert(old(self).pending_ids()[i] == p[i]);
                    assert(old(self).pending_ids().contains(p[i]) == false || p[i]
                        != request_id as int) by {
                        if p[i] == request_id as int {
                            assert(old(self).pending_ids().contains(request_id as int));
                        }
                    }
                }
            }
        }
        Ok(())
    }

    /// Removes the wait on `request_id` after a timeout; the caller
    /// fails with `RequestTimedOut` and a late response for this id will
    /// be dropped by routing.
    pub fn on_timeout(&mut self, request_id: i64) -> (r: PklError)
        requires
            old(self).wf(),
        ensures
            final(self).wf(),
            r == PklError::RequestTimedOut,
            final(self).pending_ids() == remove_id(old(self).pending_ids(), request_id as int),
            !final(self).pending_ids().contains(request_id as int),
    {
        self.remove_pending(request_id);
        proof {
            lemma_remove_id_props(old(self).pending_ids(), request_id as int);
        }
        PklError::RequestTimedOut
    }

    /// Removes the first (only) entry under `request_id`, if present.
    fn remove_pending(&mut self, request_id: i64)
        ensures
            final(self).pending_ids() == remove_id(old(self).pending_ids(), request_id as int),
    {
        let n = self.pending.len();
        for i in 0..n
            invariant
                n == self.pending@.len(),
                self.pending@ == old(self).pending@,
                forall|j: int| 0 <= j < i ==> ids_of(self.pending@)[j] != request_id as int,
        {
            proof {
                assert(ids_of(self.pending@)[i as int] == self.pending@[i as int].request_id as int);
            }
            if self.pending[i].request_id == request_id {
                self.pending.remove(i);
                proof {
                    lemma_remove_id_at(ids_of(old(self).pending@), request_id as int, i as int);
                    assert(ids_of(self.pending@) =~= ids_of(old(self).pending@).take(i as int)
                        + ids_of(old(self).pending@).skip(i + 1));
                }
                return;
            }
        }
        proof {
            let p = ids_of(self.pending@);
            assert(remove_id_of_absent(p, request_id as int)) by {
                lemma_remove_id_absent(p, request_id as int);
            }
        }
    }

    /// Empties the table when the connection dies: every registered
    /// wait comes back, in registration order, so that the
    /// connection-fatal error can be propagated to each caller still
    /// waiting; afterwards nothing is pending.
    pub fn fail_pending(&mut self) -> (r: Vec<PendingRequest>)
        ensures
            ids_of(r@) == old(self).pending_ids(),
            final(self).pending_ids() == Seq::<int>::empty(),
            final(self).wf(),
    {
        let mut out: Vec<PendingRequest> = Vec::new();
        let n = self.pending.len();
        let mut i: usize = 0;
        while i < n
            invariant
                0 <= i <= n,
                n == old(self).pending@.len(),
                self.pending@ == old(self).pending@,
                out@ == old(self).pending@.take(i as int),
            decreases n - i,
        {
            out.push(self.pending[i]);
            proof {
                assert(out@ =~= old(self).pending@.take(i + 1));
            }
            i += 1;
        }
        self.pending.clear();
        proof {
            assert(out@ =~= old(self).pending@);
            assert(ids_of(out@) =~= ids_of(old(self).pending@));
            assert(self.pending_ids() =~= Seq::<int>::empty());
        }
        out
    }

    /// Routes one inbound message, as `spec_route` describes: matched
    /// responses consume their table entry and are delivered; unmatched
    /// responses are dropped; callbacks and logs pass through.
    pub fn route(&mut self, msg: IncomingMessage) -> (r: Routed)
        requires
            old(self).wf(),
        ensures
            final(self).wf(),
            (final(self).pending_ids(), r@) == spec_route(old(self).pending_ids(), msg@),
    {
        let id_of_response: Option<i64> = match &msg {
            IncomingMessage::CreateEvaluatorResponse(x) => Some(x.request_id),
            IncomingMessage::EvaluateResponse(x) => Some(x.request_id),
            _ => None,
        };
        match id_of_response {
            Some(id) => {
                if self.contains(id) {
                    self.remove_pending(id);
                    proof {
                        lemma_remove_id_props(old(self).pending_ids(), id as int);
                    }
                    Routed::Deliver(id, msg)
                } else {
                    Routed::DroppedLate(id)
                }
            },
            None => match msg {
                IncomingMessage::Log(l) => Routed::LogMessage(l),
                other => Routed::Callback(other),
            },
        }
    }
}

/// Whether removing `id` from `p` leaves `p` unchanged.
pub open spec fn remove_id_of_absent(p: Seq<int>, id: int) -> bool {
    !p.contains(id) ==> remove_id(p, id) == p
}

pub proof fn lemma_remove_id_absent(p: Seq<int>, id: int)
    ensures
        remove_id_of_absent(p, id),
    decreases p,
{
    if p.len() == 0 {
        assert(remove_id(p, id) =~= p);
    } else if !p.contains(id) {
        assert(p.first() != id) by {
            if p.first() == id {
                assert(p[0] == id);
                assert(p.contains(id));
            }
        }
        lemma_remove_id_absent(p.drop_first(), id);
        assert(!p.drop_first().contains(id)) by {
            if p.drop_first().contains(id) {
                let w = choose|w: int|
                    0 <= w < p.drop_first().len() && p.drop_first()[w] == id;
                assert(p[w + 1] == id);
                assert(p.contains(id));
            }
        }
        assert(remove_id(p, id) == seq![p.first()] + p.drop_first());
        assert(remove_id(p, id) =~= p);
    }
}

} // verus!
