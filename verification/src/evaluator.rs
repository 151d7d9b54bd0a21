//! The caller-visible evaluator handle: one engine-assigned id, its
//! option set, its reader registrations, and whether it is closed.
use vstd::prelude::*;

verus! {

use crate::errors::PklError;
use crate::evaluator_options::EvaluatorOptions;
use crate::logger::Logger;
use crate::module_source::ModuleSource;
use crate::outgoing::{Evaluate, ModuleReader, ResourceReader};

/// An evaluation context the engine holds, addressed by its id. Owned by
/// the manager; once `closed` no message naming this id may be sent.
#[derive(Debug, PartialEq)]
pub struct Evaluator {
    pub evaluator_id: i64,
    pub logger: Logger,
    pub pending_requests: Vec<i64>,
    pub closed: bool,
    pub resource_readers: Vec<ResourceReader>,
    pub module_readers: Vec<ModuleReader>,
    pub opts: EvaluatorOptions,
}

impl Evaluator {
    /// Whether this handle is terminal.
    pub fn closed(&self) -> (r: bool)
        ensures
            r == self.closed,
    {
        self.closed
    }

    /// The evaluate frame for a whole module: an expression-less
    /// evaluation of the source.
    pub fn evaluate_module(&self, request_id: i64, source: &ModuleSource) -> (r: Result<
        Evaluate,
        PklError,
    >)
        ensures
            match r {
                Ok(m) => !self.closed && m.request_id == request_id && m.evaluator_id
                    == self.evaluator_id && m.module_uri@ == source.spec_uri() && (match (
                    m.module_text,
                    source.spec_contents(),
                ) {
                    (Some(a), Some(b)) => a@ == b@,
                    (None, None) => true,
                    _ => false,
                }) && m.expr is None,
                Err(e) => self.closed && e == PklError::EvaluatorClosed,
            },
    {
        self.evaluate_expression(request_id, source, None)
    }

    /// The evaluate frame for one expression over the source.
    pub fn evaluate_expression(&self, request_id: i64, source: &ModuleSource, expr: Option<String>)
        -> (r: Result<Evaluate, PklError>)
        ensures
            match r {
                Ok(m) => !self.closed && m.request_id == request_id && m.evaluator_id
                    == self.evaluator_id && m.module_uri@ == source.spec_uri() && (match (
                    m.module_text,
                    source.spec_contents(),
                ) {
                    (Some(a), Some(b)) => a@ == b@,
                    (None, None) => true,
                    _ => false,
                }) && m.expr == expr,
                Err(e) => self.closed && e == PklError::EvaluatorClosed,
            },
    {
        self.evaluate_request(request_id, source, expr)
    }

    /// The evaluate frame for one source and optional expression, under
    /// a caller-chosen request id; refused once the handle is closed.
    pub fn evaluate_request(&self, request_id: i64, source: &ModuleSource, expr: Option<String>)
        -> (r: Result<Evaluate, PklError>)
        ensures
            match r {
                Ok(m) => !self.closed && m.request_id == request_id && m.evaluator_id
                    == self.evaluator_id && m.module_uri@ == source.spec_uri() && (match (
                    m.module_text,
                    source.spec_contents(),
                ) {
                    (Some(a), Some(b)) => a@ == b@,
                    (None, None) => true,
                    _ => false,
                }) && m.expr == expr,
                Err(e) => self.closed && e == PklError::EvaluatorClosed,
            },
    {
        if self.closed {
            return Err(PklError::EvaluatorClosed);
        }
        let module_text: Option<String> = match source.contents() {
            Some(t) => Some(t.clone()),
            None => None,
        };
        Ok(
            Evaluate {
                request_id,
                evaluator_id: self.evaluator_id,
                module_uri: source.uri().clone(),
                module_text,
                expr,
            },
        )
    }
}

} // verus!
