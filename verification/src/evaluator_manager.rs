//! The evaluator manager: the create-evaluator handshake, the evaluate
//! exchange's decisions, and evaluator teardown.
//!
//! The manager owns every evaluator and is the only writer of their
//! state. It never performs I/O itself: each operation either builds the
//! frame to send, or consumes the response the stream delivered, so that
//! the whole lifecycle logic is checked here while the caller owns the
//! process and its pipes.
use vstd::prelude::*;

verus! {

use crate::errors::PklError;
use crate::evaluator::Evaluator;
use crate::evaluator_options::EvaluatorOptions;
use crate::incoming::{CreateEvaluatorResponse, EvaluateResponse, IncomingMessage};
use crate::outgoing::{
    CloseEvaluator, CreateEvaluator, ListModulesResponse, ListResourceResponse, OutgoingMessage,
    PathElement, ProjectOrDependency, ReadModuleResponse, ReadResourceResponse,
};
use crate::router::Router;
use vstd::string::StringExecFns;

/// A fresh copy of a list of strings.
fn clone_strings(list: &Vec<String>) -> (r: Vec<String>)
    ensures
        crate::evaluator_options::strs_view(r@) == crate::evaluator_options::strs_view(list@),
{
    let mut out: Vec<String> = Vec::new();
    let n = list.len();
    for i in 0..n
        invariant
            n == list@.len(),
            out@.len() == i,
            forall|j: int| 0 <= j < i ==> (#[trigger] out@[j])@ == list@[j]@,
    {
        out.push(list[i].clone());
    }
    proof {
        assert(crate::evaluator_options::strs_view(out@) =~= crate::evaluator_options::strs_view(
            list@,
        ));
    }
    out
}

/// The index of the evaluator holding `id`, or -1.
pub open spec fn spec_find(evs: Seq<Evaluator>, id: i64) -> int
    decreases evs,
{
    if evs.len() == 0 {
        -1
    } else if evs.first().evaluator_id == id {
        0
    } else {
        let r = spec_find(evs.drop_first(), id);
        if r == -1 {
            -1
        } else {
            r + 1
        }
    }
}

pub proof fn lemma_spec_find(evs: Seq<Evaluator>, id: i64)
    ensures
        spec_find(evs, id) == -1 ==> forall|i: int|
            0 <= i < evs.len() ==> (#[trigger] evs[i]).evaluator_id != id,
        spec_find(evs, id) != -1 ==> 0 <= spec_find(evs, id) < evs.len() && evs[spec_find(
            evs,
            id,
        )].evaluator_id == id,
    decreases evs,
{
    if evs.len() > 0 {
        lemma_spec_find(evs.drop_first(), id);
        if spec_find(evs, id) == -1 {
            assert forall|i: int| 0 <= i < evs.len() implies (#[trigger] evs[i]).evaluator_id
                != id by {
                if i > 0 {
                    assert(evs.drop_first()[i - 1] == evs[i]);
                }
            }
        }
    }
}

/// The same evaluator, marked terminal.
pub open spec fn with_closed(e: Evaluator) -> Evaluator {
    Evaluator { closed: true, ..e }
}

/// What closing one evaluator does: an unknown id is refused, a closed
/// one is refused without a second close frame, an open one is marked
/// closed and yields exactly one close frame.
pub open spec fn spec_close_one(evs: Seq<Evaluator>, id: i64) -> (
    Seq<Evaluator>,
    Result<CloseEvaluator, PklError>,
) {
    let i = spec_find(evs, id);
    if i == -1 {
        (evs, Err(PklError::UnknownEvaluator))
    } else if evs[i].closed {
        (evs, Err(PklError::EvaluatorClosed))
    } else {
        (evs.update(i, with_closed(evs[i])), Ok(CloseEvaluator { evaluator_id: Some(id) }))
    }
}

/// Closing is idempotent in the safe direction: after a successful
/// close, closing the same evaluator again changes nothing and yields
/// `EvaluatorClosed`, never a second close frame.
pub proof fn lemma_close_idempotent(evs: Seq<Evaluator>, id: i64)
    ensures
        ({
            let (evs1, r1) = spec_close_one(evs, id);
            let (evs2, r2) = spec_close_one(evs1, id);
            r1 is Ok ==> evs2 == evs1 && r2 == Err::<CloseEvaluator, PklError>(
                PklError::EvaluatorClosed,
            )
        }),
{
    let i = spec_find(evs, id);
    lemma_spec_find(evs, id);
    if i != -1 && !evs[i].closed {
        let evs1 = evs.update(i, with_closed(evs[i]));
        lemma_spec_find_update_same_id(evs, id, i);
        lemma_spec_find(evs1, id);
    }
}

/// Updating an entry without changing its id leaves `spec_find` alone.
proof fn lemma_spec_find_update_same_id(evs: Seq<Evaluator>, id: i64, i: int)
    requires
        0 <= i < evs.len(),
        spec_find(evs, id) == i,
    ensures
        spec_find(evs.update(i, with_closed(evs[i])), id) == i,
    decreases evs,
{
    if evs.len() > 0 {
        if i == 0 {
            assert(evs.update(0, with_closed(evs[0])).first() == with_closed(evs[0]));
        } else {
            assert(evs.first().evaluator_id != id);
            assert(evs.update(i, with_closed(evs[i])).first() == evs.first());
            assert(evs.update(i, with_closed(evs[i])).drop_first() =~= evs.drop_first().update(
                i - 1,
                with_closed(evs.drop_first()[i - 1]),
            ));
            lemma_spec_find_update_same_id(evs.drop_first(), id, i - 1);
        }
    }
}

/// A fresh evaluator accepted from a successful handshake starts open
/// (Created), and a close right after it succeeds with exactly one close
/// frame: no evaluate exchange stands between creation and close.
pub proof fn lemma_create_then_close(evs: Seq<Evaluator>, e: Evaluator)
    requires
        !e.closed,
        spec_find(evs, e.evaluator_id) == -1,
    ensures
        ({
            let evs1 = evs.push(e);
            let (evs2, r) = spec_close_one(evs1, e.evaluator_id);
            r == Ok::<CloseEvaluator, PklError>(
                CloseEvaluator { evaluator_id: Some(e.evaluator_id) },
            ) && spec_find(evs2, e.evaluator_id) != -1 && evs2[spec_find(
                evs2,
                e.evaluator_id,
            )].closed
        }),
{
    let evs1 = evs.push(e);
    lemma_spec_find_push(evs, e);
    lemma_spec_find(evs1, e.evaluator_id);
    let i = spec_find(evs1, e.evaluator_id);
    let evs2 = evs1.update(i, with_closed(evs1[i]));
    lemma_spec_find_update_same_id(evs1, e.evaluator_id, i);
    lemma_spec_find(evs2, e.evaluator_id);
}

/// Pushing an evaluator with an unknown id makes it findable.
proof fn lemma_spec_find_push(evs: Seq<Evaluator>, e: Evaluator)
    requires
        spec_find(evs, e.evaluator_id) == -1,
    ensures
        spec_find(evs.push(e), e.evaluator_id) == evs.len(),
    decreases evs,
{
    if evs.len() == 0 {
        assert(evs.push(e).first() == e);
    } else {
        assert(evs.first().evaluator_id != e.evaluator_id);
        lemma_spec_find(evs.drop_first(), e.evaluator_id);
        assert(spec_find(evs.drop_first(), e.evaluator_id) == -1);
        assert(evs.push(e).first() == evs.first());
        assert(evs.push(e).drop_first() =~= evs.drop_first().push(e));
        lemma_spec_find_push(evs.drop_first(), e);
    }
}

/// Relies on `rand::random`: a fresh pseudo-random value; nothing is
/// assumed about which one.
pub assume_specification<T>[ rand::random::<T> ]() -> (r: T)
    where
        rand::distributions::Standard: rand::distributions::Distribution<T>,
;

/// Owns the evaluator set and drives their lifecycles; the caller wires
/// it to the engine's streams. Once a connection-fatal condition is
/// recorded the manager is terminal: it produces no further frames, and
/// a fresh session is required.
#[derive(Debug, PartialEq)]
pub struct EvaluatorManager {
    evaluators: Vec<Evaluator>,
    version: Option<String>,
    failed: bool,
}

impl EvaluatorManager {
    pub closed spec fn spec_evaluators(self) -> Seq<Evaluator> {
        self.evaluators@
    }

    pub closed spec fn spec_version(self) -> Option<String> {
        self.version
    }

    /// Whether a connection-fatal condition has placed this session in
    /// its terminal failed state.
    pub closed spec fn spec_failed(self) -> bool {
        self.failed
    }

    /// A manager with no evaluators, no probed version, and a live
    /// session.
    pub fn new() -> (r: EvaluatorManager)
        ensures
            r.spec_evaluators() == Seq::<Evaluator>::empty(),
            r.spec_version() is None,
            !r.spec_failed(),
    {
        let r = EvaluatorManager { evaluators: Vec::new(), version: None, failed: false };
        proof {
            assert(r.spec_evaluators() =~= Seq::<Evaluator>::empty());
        }
        r
    }

    /// Records a connection-fatal condition (stream closed, malformed
    /// frame, unknown code): the session becomes terminal and no frame
    /// will be produced after this point.
    pub fn fail_connection(&mut self)
        ensures
            final(self).spec_failed(),
            final(self).spec_evaluators() == old(self).spec_evaluators(),
            final(self).spec_version() == old(self).spec_version(),
    {
        self.failed = true;
    }

    /// Whether the session is in its terminal failed state.
    pub fn connection_failed(&self) -> (r: bool)
        ensures
            r == self.spec_failed(),
    {
        self.failed
    }

    /// Records the engine's probed version string.
    pub fn set_version(&mut self, version: String)
        ensures
            final(self).spec_version() == Some(version),
            final(self).spec_evaluators() == old(self).spec_evaluators(),
            final(self).spec_failed() == old(self).spec_failed(),
    {
        self.version = Some(version);
    }

    /// The engine's version, where the probe has run.
    pub fn get_version(&self) -> (r: Result<String, &'static str>)
        ensures
            match r {
                Ok(v) => self.spec_version() matches Some(s) && v@ == s@,
                Err(_) => self.spec_version() is None,
            },
    {
        match &self.version {
            Some(v) => Ok(v.clone()),
            None => Err("engine version not probed"),
        }
    }

    /// The handshake frame for a new evaluator under the given options:
    /// the allowed lists and the cache directory come from the options,
    /// everything else stays unset.
    pub fn create_evaluator_request(&self, request_id: i64, opts: &EvaluatorOptions) -> (r:
        CreateEvaluator)
        ensures
            r.request_id == request_id,
            handshake_frame_from(r, *opts),
            r.project is None,
    {
        let r = CreateEvaluator {
            request_id,
            client_resource_readers: None,
            client_module_readers: None,
            module_paths: None,
            env: None,
            properties: None,
            output_format: None,
            allowed_modules: Some(clone_strings(&opts.allowed_modules)),
            allowed_resources: Some(clone_strings(&opts.allowed_resources)),
            root_dir: None,
            cache_dir: Some(opts.cache_dir.clone()),
            project: None,
            timeout_seconds: None,
        };
        r
    }

    /// Begins the handshake: draws a fresh request id, registers the
    /// wait, and returns the frame to send, built from the options as
    /// `create_evaluator_request` states. A random-id collision is
    /// rejected as a duplicate, never overwritten; on an empty pending
    /// table no draw can collide, so success is owed. A failed session
    /// produces no frame.
    pub fn new_evaluator(&self, router: &mut Router, opts: &EvaluatorOptions) -> (r: Result<
        CreateEvaluator,
        PklError,
    >)
        requires
            old(router).wf(),
        ensures
            final(router).wf(),
            self.spec_failed() ==> r == Err::<CreateEvaluator, PklError>(
                PklError::ConnectionClosed,
            ) && *final(router) == *old(router),
            !self.spec_failed() ==> match r {
                Ok(m) => final(router).pending_ids() == old(router).pending_ids().push(
                    m.request_id as int,
                ) && handshake_frame_from(m, *opts) && m.project is None,
                Err(e) => e == PklError::DuplicateRequestId && *final(router) == *old(router)
                    && old(router).pending_ids().len() > 0,
            },
    {
        if self.failed {
            return Err(PklError::ConnectionClosed);
        }
        let request_id: i64 = rand::random::<i64>();
        match router.register(request_id, 0) {
            Ok(()) => Ok(self.create_evaluator_request(request_id, opts)),
            Err(e) => Err(e),
        }
    }

    /// Begins the handshake for a project evaluator: the same frame,
    /// with the project descriptor attached; otherwise exactly as
    /// `new_evaluator`.
    pub fn new_project_evaluator(
        &self,
        router: &mut Router,
        opts: &EvaluatorOptions,
        project: ProjectOrDependency,
    ) -> (r: Result<CreateEvaluator, PklError>)
        requires
            old(router).wf(),
        ensures
            final(router).wf(),
            self.spec_failed() ==> r == Err::<CreateEvaluator, PklError>(
                PklError::ConnectionClosed,
            ) && *final(router) == *old(router),
            !self.spec_failed() ==> match r {
                Ok(m) => final(router).pending_ids() == old(router).pending_ids().push(
                    m.request_id as int,
                ) && handshake_frame_from(m, *opts) && m.project == Some(project),
                Err(e) => e == PklError::DuplicateRequestId && *final(router) == *old(router)
                    && old(router).pending_ids().len() > 0,
            },
    {
        if self.failed {
            return Err(PklError::ConnectionClosed);
        }
        let request_id: i64 = rand::random::<i64>();
        match router.register(request_id, 0) {
            Ok(()) => {
                let mut m = self.create_evaluator_request(request_id, opts);
                m.project = Some(project);
                Ok(m)
            },
            Err(e) => Err(e),
        }
    }

    /// Consumes the handshake response. An `error` set, or a missing
    /// evaluator id, always fails the creation and never yields a
    /// handle; otherwise the new evaluator joins the set, open, under
    /// the engine's id.
    pub fn accept_create_response(
        &mut self,
        resp: &CreateEvaluatorResponse,
        opts: EvaluatorOptions,
    ) -> (r: Result<i64, PklError>)
        ensures
            match r {
                Ok(id) => resp.error is None && resp.evaluator_id == Some(id) && spec_find(
                    old(self).spec_evaluators(),
                    id,
                ) == -1 && final(self).spec_evaluators() == old(self).spec_evaluators().push(
                    final(self).spec_evaluators().last(),
                ) && final(self).spec_evaluators().last().evaluator_id == id
                    && !final(self).spec_evaluators().last().closed
                    && final(self).spec_evaluators().last().opts == opts
                    && final(self).spec_evaluators().last().logger == opts.logger
                    && final(self).spec_evaluators().last().pending_requests@.len() == 0
                    && final(self).spec_evaluators().last().resource_readers@.len() == 0
                    && final(self).spec_evaluators().last().module_readers@.len() == 0,
                Err(e) => final(self).spec_evaluators() == old(self).spec_evaluators() && (match e {
                    PklError::EvaluatorCreationFailed(m) => resp.error matches Some(em) && m@
                        == em@ || resp.error is None && resp.evaluator_id is None,
                    PklError::ProtocolViolation => resp.error is None && (
                    resp.evaluator_id matches Some(id) && spec_find(
                        old(self).spec_evaluators(),
                        id,
                    ) != -1),
                    _ => false,
                }),
            },
            final(self).spec_version() == old(self).spec_version(),
            final(self).spec_failed() == old(self).spec_failed(),
    {
        if let Some(err) = &resp.error {
            return Err(PklError::EvaluatorCreationFailed(err.clone()));
        }
        let id = match resp.evaluator_id {
            Some(id) => id,
            None => {
                return Err(
                    PklError::EvaluatorCreationFailed(
                        String::from_str("engine assigned no evaluator id"),
                    ),
                );
            },
        };
        if self.find_evaluator(id).is_some() {
            return Err(PklError::ProtocolViolation);
        }
        let evaluator = Evaluator {
            evaluator_id: id,
            logger: opts.logger,
            pending_requests: Vec::new(),
            closed: false,
            resource_readers: Vec::new(),
            module_readers: Vec::new(),
            opts,
        };
        self.evaluators.push(evaluator);
        Ok(id)
    }

    /// Whether the evaluator `id` exists, and whether it is closed.
    pub fn evaluator_closed(&self, id: i64) -> (r: Option<bool>)
        ensures
            match r {
                Some(c) => spec_find(self.spec_evaluators(), id) != -1 && c == self.spec_evaluators()[spec_find(
                    self.spec_evaluators(),
                    id,
                )].closed,
                None => spec_find(self.spec_evaluators(), id) == -1,
            },
    {
        proof {
            lemma_spec_find(self.spec_evaluators(), id);
        }
        match self.find_evaluator(id) {
            Some(i) => Some(self.evaluators[i].closed),
            None => None,
        }
    }

    /// The index holding `id`, where `spec_find` finds one.
    fn find_evaluator(&self, id: i64) -> (r: Option<usize>)
        ensures
            match r {
                Some(i) => i as int == spec_find(self.spec_evaluators(), id),
                None => spec_find(self.spec_evaluators(), id) == -1,
            },
    {
        let n = self.evaluators.len();
        let mut i: usize = 0;
        while i < n
            invariant
                0 <= i <= n,
                n == self.evaluators@.len(),
                forall|j: int|
                    0 <= j < i ==> (#[trigger] self.evaluators@[j]).evaluator_id != id,
            decreases n - i,
        {
            if self.evaluators[i].evaluator_id == id {
                proof {
                    lemma_spec_find_prefix(self.evaluators@, id, i as int);
                }
                return Some(i);
            }
            i += 1;
        }
        proof {
            lemma_spec_find_prefix(self.evaluators@, id, n as int);
        }
        None
    }

    /// Closes one evaluator, as `spec_close_one` describes: the frame to
    /// send comes back exactly once, on the open-to-closed transition.
    /// A failed session produces no frame.
    pub fn close_evaluator(&mut self, evaluator_id: i64) -> (r: Result<CloseEvaluator, PklError>)
        ensures
            old(self).spec_failed() ==> r == Err::<CloseEvaluator, PklError>(
                PklError::ConnectionClosed,
            ) && final(self).spec_evaluators() == old(self).spec_evaluators(),
            !old(self).spec_failed() ==> (final(self).spec_evaluators(), r) == spec_close_one(
                old(self).spec_evaluators(),
                evaluator_id,
            ),
            final(self).spec_version() == old(self).spec_version(),
            final(self).spec_failed() == old(self).spec_failed(),
    {
        if self.failed {
            return Err(PklError::ConnectionClosed);
        }
        proof {
            lemma_spec_find(self.spec_evaluators(), evaluator_id);
        }
        let idx = match self.find_evaluator(evaluator_id) {
            Some(i) => i,
            None => {
                return Err(PklError::UnknownEvaluator);
            },
        };
        if self.evaluators[idx].closed {
            return Err(PklError::EvaluatorClosed);
        }
        let mut e = self.evaluators.remove(idx);
        e.closed = true;
        self.evaluators.insert(idx, e);
        proof {
            assert(final(self).spec_evaluators() =~= old(self).spec_evaluators().update(
                idx as int,
                with_closed(old(self).spec_evaluators()[idx as int]),
            ));
        }
        Ok(CloseEvaluator { evaluator_id: Some(evaluator_id) })
    }

    /// Tears the whole manager down: every still-open evaluator is
    /// marked closed, and one close frame per formerly-open evaluator
    /// comes back, in order, to be sent before the engine is released.
    /// On a failed session no frame is owed, since nothing may be sent:
    /// the evaluators are still marked closed.
    pub fn close(&mut self) -> (r: Vec<CloseEvaluator>)
        ensures
            final(self).spec_evaluators().len() == old(self).spec_evaluators().len(),
            forall|i: int|
                0 <= i < old(self).spec_evaluators().len()
                    ==> (#[trigger] final(self).spec_evaluators()[i]) == with_closed_if_open(
                    old(self).spec_evaluators()[i],
                ),
            r@ == (if old(self).spec_failed() {
                Seq::<CloseEvaluator>::empty()
            } else {
                close_frames(old(self).spec_evaluators())
            }),
            final(self).spec_version() == old(self).spec_version(),
            final(self).spec_failed() == old(self).spec_failed(),
    {
        let send_frames = !self.failed;
        let mut out: Vec<CloseEvaluator> = Vec::new();
        let n = self.evaluators.len();
        let mut i: usize = 0;
        while i < n
            invariant
                0 <= i <= n,
                n == self.evaluators@.len(),
                self.evaluators@.len() == old(self).spec_evaluators().len(),
                self.version == old(self).version,
                self.failed == old(self).spec_failed(),
                send_frames == !old(self).spec_failed(),
                forall|j: int|
                    i <= j < n ==> (#[trigger] self.evaluators@[j]) == old(
                        self,
                    ).spec_evaluators()[j],
                forall|j: int|
                    0 <= j < i ==> (#[trigger] self.evaluators@[j]) == with_closed_if_open(
                        old(self).spec_evaluators()[j],
                    ),
                out@ == (if send_frames {
                    close_frames(old(self).spec_evaluators().take(i as int))
                } else {
                    Seq::<CloseEvaluator>::empty()
                }),
            decreases n - i,
        {
            proof {
                assert(old(self).spec_evaluators().take(i + 1).drop_last() =~= old(
                    self,
                ).spec_evaluators().take(i as int));
                assert(old(self).spec_evaluators().take(i + 1).last() == old(
                    self,
                ).spec_evaluators()[i as int]);
                lemma_close_frames_step(old(self).spec_evaluators(), i as int);
            }
            if !self.evaluators[i].closed {
                if send_frames {
                    out.push(
                        CloseEvaluator { evaluator_id: Some(self.evaluators[i].evaluator_id) },
                    );
                }
                let ghost pre = self.evaluators@;
                let mut e = self.evaluators.remove(i);
                e.closed = true;
                self.evaluators.insert(i, e);
                proof {
                    assert(self.evaluators@ =~= pre.update(i as int, with_closed(pre[i as int])));
                    if send_frames {
                        assert(out@ =~= close_frames(old(self).spec_evaluators().take(i + 1)));
                    }
                }
            } else {
                proof {
                    if send_frames {
                        assert(out@ =~= close_frames(old(self).spec_evaluators().take(i + 1)));
                    }
                }
            }
            i += 1;
        }
        proof {
            assert(old(self).spec_evaluators().take(n as int) =~= old(self).spec_evaluators());
        }
        out
    }

    /// The decisions of the evaluate exchange's terminal response: an
    /// engine-reported error fails the evaluation with the engine's
    /// message and nothing else of the response is interpreted; a result
    /// yields its bytes; a response carrying neither breaks the
    /// protocol.
    pub fn handle_evaluate_response(resp: &EvaluateResponse) -> (r: Result<Vec<u8>, PklError>)
        ensures
            match resp.error {
                Some(_) => r matches Err(PklError::EvaluationFailed(m)) && (
                resp.error matches Some(em) && m@ == em@),
                None => match resp.result {
                    Some(_) => r matches Ok(b) && (resp.result matches Some(rb) && b@ == rb@),
                    None => r == Err::<Vec<u8>, PklError>(PklError::ProtocolViolation),
                },
            },
    {
        if let Some(err) = &resp.error {
            return Err(PklError::EvaluationFailed(err.clone()));
        }
        match &resp.result {
            Some(b) => {
                let mut copy: Vec<u8> = Vec::new();
                copy.extend_from_slice(b.as_slice());
                assert(copy@ =~= b@);
                Ok(copy)
            },
            None => Err(PklError::ProtocolViolation),
        }
    }

    /// Accepts or refuses one engine callback by the evaluator it
    /// names: a callback for an unknown evaluator id is refused, one for
    /// a closed evaluator is refused since no message naming it may be
    /// accepted after the close, and anything that is not a callback
    /// passes through.
    pub fn check_callback(&self, msg: &IncomingMessage) -> (r: Result<(), PklError>)
        ensures
            match spec_callback_evaluator(*msg) {
                Some(id) => match r {
                    Ok(()) => spec_find(self.spec_evaluators(), id) != -1
                        && !self.spec_evaluators()[spec_find(self.spec_evaluators(), id)].closed,
                    Err(e) => (e == PklError::UnknownEvaluator && spec_find(
                        self.spec_evaluators(),
                        id,
                    ) == -1) || (e == PklError::EvaluatorClosed && spec_find(
                        self.spec_evaluators(),
                        id,
                    ) != -1 && self.spec_evaluators()[spec_find(
                        self.spec_evaluators(),
                        id,
                    )].closed),
                },
                None => r == Ok::<(), PklError>(()),
            },
    {
        let id = match msg {
            IncomingMessage::ReadResource(x) => x.evaluator_id,
            IncomingMessage::ReadModule(x) => x.evaluator_id,
            IncomingMessage::ListResources(x) => x.evaluator_id,
            IncomingMessage::ListModules(x) => x.evaluator_id,
            _ => {
                return Ok(());
            },
        };
        match self.evaluator_closed(id) {
            None => Err(PklError::UnknownEvaluator),
            Some(true) => Err(PklError::EvaluatorClosed),
            Some(false) => Ok(()),
        }
    }

    /// The reply for a callback no registered reader takes: list
    /// callbacks get an empty listing, read callbacks an error, and
    /// anything that is not a callback gets no reply.
    pub fn default_callback_reply(msg: &IncomingMessage) -> (r: Option<OutgoingMessage>)
        ensures
            match msg {
                IncomingMessage::ListModules(x) => r matches Some(
                    OutgoingMessage::ListModulesResponse(m),
                ) && m.request_id == x.request_id && m.evaluator_id == x.evaluator_id && (
                m.path_elements matches Some(p) && p@.len() == 0) && m.error is None,
                IncomingMessage::ListResources(x) => r matches Some(
                    OutgoingMessage::ListResourceResponse(m),
                ) && m.request_id == x.request_id && m.evaluator_id == x.evaluator_id && (
                m.path_elements matches Some(p) && p@.len() == 0) && m.error is None,
                IncomingMessage::ReadResource(x) => r matches Some(
                    OutgoingMessage::ReadResourceResponse(m),
                ) && m.request_id == x.request_id && m.evaluator_id == x.evaluator_id
                    && m.contents is None && m.error is Some,
                IncomingMessage::ReadModule(x) => r matches Some(
                    OutgoingMessage::ReadModuleResponse(m),
                ) && m.request_id == x.request_id && m.evaluator_id == x.evaluator_id
                    && m.contents is None && m.error is Some,
                _ => r is None,
            },
    {
        match msg {
            IncomingMessage::ListModules(x) => Some(
                OutgoingMessage::ListModulesResponse(
                    ListModulesResponse {
                        request_id: x.request_id,
                        evaluator_id: x.evaluator_id,
                        path_elements: Some(Vec::<PathElement>::new()),
                        error: None,
                    },
                ),
            ),
            IncomingMessage::ListResources(x) => Some(
                OutgoingMessage::ListResourceResponse(
                    ListResourceResponse {
                        request_id: x.request_id,
                        evaluator_id: x.evaluator_id,
                        path_elements: Some(Vec::<PathElement>::new()),
                        error: None,
                    },
                ),
            ),
            IncomingMessage::ReadResource(x) => Some(
                OutgoingMessage::ReadResourceResponse(
                    ReadResourceResponse {
                        request_id: x.request_id,
                        evaluator_id: x.evaluator_id,
                        contents: None,
                        error: Some(String::from_str("no resource reader registered")),
                    },
                ),
            ),
            IncomingMessage::ReadModule(x) => Some(
                OutgoingMessage::ReadModuleResponse(
                    ReadModuleResponse {
                        request_id: x.request_id,
                        evaluator_id: x.evaluator_id,
                        contents: None,
                        error: Some(String::from_str("no module reader registered")),
                    },
                ),
            ),
            _ => None,
        }
    }
}

/// What every handshake frame holds, apart from its request id and
/// project: the allowed lists and cache directory come from the options,
/// every other optional field stays unset.
pub open spec fn handshake_frame_from(m: CreateEvaluator, opts: EvaluatorOptions) -> bool {
    &&& m.client_resource_readers is None
    &&& m.client_module_readers is None
    &&& m.module_paths is None
    &&& m.env is None
    &&& m.properties is None
    &&& m.output_format is None
    &&& (m.allowed_modules matches Some(am) && crate::evaluator_options::strs_view(am@)
        == crate::evaluator_options::strs_view(opts.allowed_modules@))
    &&& (m.allowed_resources matches Some(ar) && crate::evaluator_options::strs_view(ar@)
        == crate::evaluator_options::strs_view(opts.allowed_resources@))
    &&& m.root_dir is None
    &&& (m.cache_dir matches Some(c) && c@ == opts.cache_dir@)
    &&& m.timeout_seconds is None
}

/// The evaluator a callback request names, where the message is one.
pub open spec fn spec_callback_evaluator(msg: IncomingMessage) -> Option<i64> {
    match msg {
        IncomingMessage::ReadResource(x) => Some(x.evaluator_id),
        IncomingMessage::ReadModule(x) => Some(x.evaluator_id),
        IncomingMessage::ListResources(x) => Some(x.evaluator_id),
        IncomingMessage::ListModules(x) => Some(x.evaluator_id),
        _ => None,
    }
}

/// Closed if it was open; untouched otherwise.
pub open spec fn with_closed_if_open(e: Evaluator) -> Evaluator {
    if e.closed {
        e
    } else {
        with_closed(e)
    }
}

/// The close frames teardown owes: one per open evaluator, in order.
pub open spec fn close_frames(evs: Seq<Evaluator>) -> Seq<CloseEvaluator>
    decreases evs,
{
    if evs.len() == 0 {
        Seq::empty()
    } else {
        close_frames(evs.drop_last()) + (if evs.last().closed {
            Seq::empty()
        } else {
            seq![CloseEvaluator { evaluator_id: Some(evs.last().evaluator_id) }]
        })
    }
}

proof fn lemma_close_frames_step(evs: Seq<Evaluator>, i: int)
    requires
        0 <= i < evs.len(),
    ensures
        close_frames(evs.take(i + 1)) == close_frames(evs.take(i)) + (if evs[i].closed {
            Seq::<CloseEvaluator>::empty()
        } else {
            seq![CloseEvaluator { evaluator_id: Some(evs[i].evaluator_id) }]
        }),
{
    assert(evs.take(i + 1).drop_last() =~= evs.take(i));
    assert(evs.take(i + 1).last() == evs[i]);
}

/// `spec_find` agrees with a scan that found `id` first at `i`, or not
/// at all.
proof fn lemma_spec_find_prefix(evs: Seq<Evaluator>, id: i64, i: int)
    requires
        0 <= i <= evs.len(),
        forall|j: int| 0 <= j < i ==> (#[trigger] evs[j]).evaluator_id != id,
    ensures
        i < evs.len() && evs[i].evaluator_id == id ==> spec_find(evs, id) == i,
        i == evs.len() ==> spec_find(evs, id) == -1,
    decreases i,
{
    if i > 0 {
        assert(evs.first().evaluator_id != id);
        lemma_spec_find_prefix(evs.drop_first(), id, i - 1);
        assert(forall|j: int|
            0 <= j < evs.drop_first().len() ==> evs.drop_first()[j] == evs[j + 1]);
    } else {
        if i < evs.len() && evs[i].evaluator_id == id {
            assert(evs.first().evaluator_id == id);
        }
    }
}

} // verus!
