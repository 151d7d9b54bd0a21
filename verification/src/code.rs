//! Message-passing codes of the engine's binary protocol: every frame on
//! the wire is `[code, fields]`, and the code selects the payload schema.
use vstd::prelude::*;

verus! {

pub const CODE_NEW_EVALUATOR: u8 = 0x20;

pub const CODE_NEW_EVALUATOR_RESPONSE: u8 = 0x21;

pub const CODE_CLOSE_EVALUATOR: u8 = 0x22;

pub const CODE_EVALUATE: u8 = 0x23;

pub const CODE_EVALUATE_RESPONSE: u8 = 0x24;

pub const CODE_EVALUATE_LOG: u8 = 0x25;

pub const CODE_EVALUATE_READ: u8 = 0x26;

pub const CODE_EVALUATE_READ_RESPONSE: u8 = 0x27;

pub const CODE_EVALUATE_READ_MODULE: u8 = 0x28;

pub const CODE_EVALUATE_READ_MODULE_RESPONSE: u8 = 0x29;

pub const CODE_LIST_RESOURCES_REQUEST: u8 = 0x2a;

pub const CODE_LIST_RESOURCES_RESPONSE: u8 = 0x2b;

pub const CODE_LIST_MODULES_REQUEST: u8 = 0x2c;

pub const CODE_LIST_MODULES_RESPONSE: u8 = 0x2d;

#[derive(Debug, Clone, Copy, PartialEq, Eq, Structural)]
pub enum MessageCode {
    NewEvaluator,
    NewEvaluatorResponse,
    CloseEvaluator,
    Evaluate,
    EvaluateResponse,
    EvaluateLog,
    EvaluateRead,
    EvaluateReadResponse,
    EvaluateReadModule,
    EvaluateReadModuleResponse,
    ListResourcesRequest,
    ListResourcesResponse,
    ListModulesRequest,
    ListModulesResponse,
}

impl MessageCode {
    /// The wire byte of this code.
    pub open spec fn spec_byte(self) -> u8 {
        match self {
            MessageCode::NewEvaluator => CODE_NEW_EVALUATOR,
            MessageCode::NewEvaluatorResponse => CODE_NEW_EVALUATOR_RESPONSE,
            MessageCode::CloseEvaluator => CODE_CLOSE_EVALUATOR,
            MessageCode::Evaluate => CODE_EVALUATE,
            MessageCode::EvaluateResponse => CODE_EVALUATE_RESPONSE,
            MessageCode::EvaluateLog => CODE_EVALUATE_LOG,
            MessageCode::EvaluateRead => CODE_EVALUATE_READ,
            MessageCode::EvaluateReadResponse => CODE_EVALUATE_READ_RESPONSE,
            MessageCode::EvaluateReadModule => CODE_EVALUATE_READ_MODULE,
            MessageCode::EvaluateReadModuleResponse => CODE_EVALUATE_READ_MODULE_RESPONSE,
            MessageCode::ListResourcesRequest => CODE_LIST_RESOURCES_REQUEST,
            MessageCode::ListResourcesResponse => CODE_LIST_RESOURCES_RESPONSE,
            MessageCode::ListModulesRequest => CODE_LIST_MODULES_REQUEST,
            MessageCode::ListModulesResponse => CODE_LIST_MODULES_RESPONSE,
        }
    }

    /// The wire byte of this code.
    pub fn byte(self) -> (r: u8)
        ensures
            r == self.spec_byte(),
    {
        match self {
            MessageCode::NewEvaluator => CODE_NEW_EVALUATOR,
            MessageCode::NewEvaluatorResponse => CODE_NEW_EVALUATOR_RESPONSE,
            MessageCode::CloseEvaluator => CODE_CLOSE_EVALUATOR,
            MessageCode::Evaluate => CODE_EVALUATE,
            MessageCode::EvaluateResponse => CODE_EVALUATE_RESPONSE,
            MessageCode::EvaluateLog => CODE_EVALUATE_LOG,
            MessageCode::EvaluateRead => CODE_EVALUATE_READ,
            MessageCode::EvaluateReadResponse => CODE_EVALUATE_READ_RESPONSE,
            MessageCode::EvaluateReadModule => CODE_EVALUATE_READ_MODULE,
            MessageCode::EvaluateReadModuleResponse => CODE_EVALUATE_READ_MODULE_RESPONSE,
            MessageCode::ListResourcesRequest => CODE_LIST_RESOURCES_REQUEST,
            MessageCode::ListResourcesResponse => CODE_LIST_RESOURCES_RESPONSE,
            MessageCode::ListModulesRequest => CODE_LIST_MODULES_REQUEST,
            MessageCode::ListModulesResponse => CODE_LIST_MODULES_RESPONSE,
        }
    }

    /// The code for a wire byte: defined exactly on `0x20..=0x2d`.
    pub fn try_from(source: u8) -> (r: Result<MessageCode, &'static str>)
        ensures
            match r {
                Ok(c) => 0x20 <= source <= 0x2d && c.spec_byte() == source,
                Err(s) => (source < 0x20 || source > 0x2d) && s@ == "Value out of range"@,
            },
    {
        match source {
            0x20 => Ok(MessageCode::NewEvaluator),
            0x21 => Ok(MessageCode::NewEvaluatorResponse),
            0x22 => Ok(MessageCode::CloseEvaluator),
            0x23 => Ok(MessageCode::Evaluate),
            0x24 => Ok(MessageCode::EvaluateResponse),
            0x25 => Ok(MessageCode::EvaluateLog),
            0x26 => Ok(MessageCode::EvaluateRead),
            0x27 => Ok(MessageCode::EvaluateReadResponse),
            0x28 => Ok(MessageCode::EvaluateReadModule),
            0x29 => Ok(MessageCode::EvaluateReadModuleResponse),
            0x2a => Ok(MessageCode::ListResourcesRequest),
            0x2b => Ok(MessageCode::ListResourcesResponse),
            0x2c => Ok(MessageCode::ListModulesRequest),
            0x2d => Ok(MessageCode::ListModulesResponse),
            _ => Err("Value out of range"),
        }
    }
}

} // verus!
