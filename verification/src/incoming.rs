//! Messages the engine sends to the client, and the verified decoding of
//! their frames.
//!
//! Each message has a mathematical counterpart (`...V`) and a parse spec
//! over a decoded field map; `decode_incoming` ties the exec path to the
//! codec's `dec_full` and those parse functions, byte-for-byte. A field
//! that is absent and a field that is an explicit nil both decode to
//! "not specified".
use vstd::prelude::*;

verus! {

use crate::msgpack::{Value, ValueV, pairs_view, lookup, dict_get, dec_full, decode};
use crate::errors::PklError;
use crate::code::{
    CODE_NEW_EVALUATOR_RESPONSE, CODE_EVALUATE_RESPONSE, CODE_EVALUATE_LOG, CODE_EVALUATE_READ,
    CODE_EVALUATE_READ_MODULE, CODE_LIST_RESOURCES_REQUEST, CODE_LIST_MODULES_REQUEST,
};

/// A required integer field: present, integral and in 64-bit range.
pub open spec fn p_int(f: Seq<(Seq<char>, ValueV)>, k: Seq<char>) -> Option<int> {
    match lookup(f, k) {
        Some(ValueV::Int(i)) => if i64::MIN <= i <= i64::MAX {
            Some(i)
        } else {
            None
        },
        _ => None,
    }
}

/// A required string field.
pub open spec fn p_str(f: Seq<(Seq<char>, ValueV)>, k: Seq<char>) -> Option<Seq<char>> {
    match lookup(f, k) {
        Some(ValueV::Str(s)) => Some(s),
        _ => None,
    }
}

/// An optional integer field: absent or nil means "not specified".
pub open spec fn p_opt_int(f: Seq<(Seq<char>, ValueV)>, k: Seq<char>) -> Option<Option<int>> {
    match lookup(f, k) {
        None => Some(None),
        Some(ValueV::Nil) => Some(None),
        Some(ValueV::Int(i)) => if i64::MIN <= i <= i64::MAX {
            Some(Some(i))
        } else {
            None
        },
        _ => None,
    }
}

/// An optional string field: absent or nil means "not specified".
pub open spec fn p_opt_str(f: Seq<(Seq<char>, ValueV)>, k: Seq<char>) -> Option<
    Option<Seq<char>>,
> {
    match lookup(f, k) {
        None => Some(None),
        Some(ValueV::Nil) => Some(None),
        Some(ValueV::Str(s)) => Some(Some(s)),
        _ => None,
    }
}

/// An optional binary field: absent or nil means "not specified".
pub open spec fn p_opt_bin(f: Seq<(Seq<char>, ValueV)>, k: Seq<char>) -> Option<Option<Seq<u8>>> {
    match lookup(f, k) {
        None => Some(None),
        Some(ValueV::Nil) => Some(None),
        Some(ValueV::Bin(b)) => Some(Some(b)),
        _ => None,
    }
}

fn get_int(f: &Vec<(String, Value)>, key: &str) -> (r: Option<i64>)
    ensures
        match r {
            Some(i) => p_int(pairs_view(f@), key@) == Some(i as int),
            None => p_int(pairs_view(f@), key@) is None,
        },
{
    match dict_get(f, key) {
        Some(Value::Int(i)) => Some(*i),
        _ => None,
    }
}

fn get_str(f: &Vec<(String, Value)>, key: &str) -> (r: Option<String>)
    ensures
        match r {
            Some(s) => p_str(pairs_view(f@), key@) == Some(s@),
            None => p_str(pairs_view(f@), key@) is None,
        },
{
    match dict_get(f, key) {
        Some(Value::Str(s)) => Some(s.clone()),
        _ => None,
    }
}

fn get_opt_int(f: &Vec<(String, Value)>, key: &str) -> (r: Option<Option<i64>>)
    ensures
        match r {
            Some(Some(i)) => p_opt_int(pairs_view(f@), key@) == Some(Some(i as int)),
            Some(None) => p_opt_int(pairs_view(f@), key@) == Some(None::<int>),
            None => p_opt_int(pairs_view(f@), key@) is None,
        },
{
    match dict_get(f, key) {
        None => Some(None),
        Some(Value::Nil) => Some(None),
        Some(Value::Int(i)) => Some(Some(*i)),
        Some(_) => None,
    }
}

fn get_opt_str(f: &Vec<(String, Value)>, key: &str) -> (r: Option<Option<String>>)
    ensures
        match r {
            Some(Some(s)) => p_opt_str(pairs_view(f@), key@) == Some(Some(s@)),
            Some(None) => p_opt_str(pairs_view(f@), key@) == Some(None::<Seq<char>>),
            None => p_opt_str(pairs_view(f@), key@) is None,
        },
{
    match dict_get(f, key) {
        None => Some(None),
        Some(Value::Nil) => Some(None),
        Some(Value::Str(s)) => Some(Some(s.clone())),
        Some(_) => None,
    }
}

fn get_opt_bin(f: &Vec<(String, Value)>, key: &str) -> (r: Option<Option<Vec<u8>>>)
    ensures
        match r {
            Some(Some(b)) => p_opt_bin(pairs_view(f@), key@) == Some(Some(b@)),
            Some(None) => p_opt_bin(pairs_view(f@), key@) == Some(None::<Seq<u8>>),
            None => p_opt_bin(pairs_view(f@), key@) is None,
        },
{
    match dict_get(f, key) {
        None => Some(None),
        Some(Value::Nil) => Some(None),
        Some(Value::Bin(b)) => {
            let mut copy: Vec<u8> = Vec::new();
            copy.extend_from_slice(b.as_slice());
            assert(copy@ =~= b@);
            Some(Some(copy))
        },
        Some(_) => None,
    }
}

/// The engine's answer to the create-evaluator handshake. An absent
/// `evaluator_id` means the `error` field is set.
#[derive(Debug, Clone, PartialEq)]
pub struct CreateEvaluatorResponse {
    pub request_id: i64,
    pub evaluator_id: Option<i64>,
    pub error: Option<String>,
}

pub struct CreateEvaluatorResponseV {
    pub request_id: int,
    pub evaluator_id: Option<int>,
    pub error: Option<Seq<char>>,
}

impl View for CreateEvaluatorResponse {
    type V = CreateEvaluatorResponseV;

    open spec fn view(&self) -> CreateEvaluatorResponseV {
        CreateEvaluatorResponseV {
            request_id: self.request_id as int,
            evaluator_id: match self.evaluator_id {
                None => None,
                Some(i) => Some(i as int),
            },
            error: match self.error {
                None => None,
                Some(s) => Some(s@),
            },
        }
    }
}

pub open spec fn parse_create_evaluator_response(f: Seq<(Seq<char>, ValueV)>) -> Option<
    CreateEvaluatorResponseV,
> {
    match (p_int(f, "requestId"@), p_opt_int(f, "evaluatorId"@), p_opt_str(f, "error"@)) {
        (Some(rid), Some(eid), Some(err)) => Some(
            CreateEvaluatorResponseV { request_id: rid, evaluator_id: eid, error: err },
        ),
        _ => None,
    }
}

impl CreateEvaluatorResponse {
    pub fn from_fields(f: &Vec<(String, Value)>) -> (r: Option<CreateEvaluatorResponse>)
        ensures
            match r {
                Some(m) => parse_create_evaluator_response(pairs_view(f@)) == Some(m@),
                None => parse_create_evaluator_response(pairs_view(f@)) is None,
            },
    {
        match (get_int(f, "requestId"), get_opt_int(f, "evaluatorId"), get_opt_str(f, "error")) {
            (Some(rid), Some(eid), Some(err)) => Some(
                CreateEvaluatorResponse { request_id: rid, evaluator_id: eid, error: err },
            ),
            _ => None,
        }
    }
}

/// The terminal answer to an evaluate request: result bytes, or an error.
#[derive(Debug, Clone, PartialEq)]
pub struct EvaluateResponse {
    pub request_id: i64,
    pub evaluator_id: i64,
    pub result: Option<Vec<u8>>,
    pub error: Option<String>,
}

pub struct EvaluateResponseV {
    pub request_id: int,
    pub evaluator_id: int,
    pub result: Option<Seq<u8>>,
    pub error: Option<Seq<char>>,
}

impl View for EvaluateResponse {
    type V = EvaluateResponseV;

    open spec fn view(&self) -> EvaluateResponseV {
        EvaluateResponseV {
            request_id: self.request_id as int,
            evaluator_id: self.evaluator_id as int,
            result: match self.result {
                None => None,
                Some(b) => Some(b@),
            },
            error: match self.error {
                None => None,
                Some(s) => Some(s@),
            },
        }
    }
}

pub open spec fn parse_evaluate_response(f: Seq<(Seq<char>, ValueV)>) -> Option<
    EvaluateResponseV,
> {
    match (
        p_int(f, "requestId"@),
        p_int(f, "evaluatorId"@),
        p_opt_bin(f, "result"@),
        p_opt_str(f, "error"@),
    ) {
        (Some(rid), Some(eid), Some(res), Some(err)) => Some(
            EvaluateResponseV { request_id: rid, evaluator_id: eid, result: res, error: err },
        ),
        _ => None,
    }
}

impl EvaluateResponse {
    pub fn from_fields(f: &Vec<(String, Value)>) -> (r: Option<EvaluateResponse>)
        ensures
            match r {
                Some(m) => parse_evaluate_response(pairs_view(f@)) == Some(m@),
                None => parse_evaluate_response(pairs_view(f@)) is None,
            },
    {
        match (
            get_int(f, "requestId"),
            get_int(f, "evaluatorId"),
            get_opt_bin(f, "result"),
            get_opt_str(f, "error"),
        ) {
            (Some(rid), Some(eid), Some(res), Some(err)) => Some(
                EvaluateResponse { request_id: rid, evaluator_id: eid, result: res, error: err },
            ),
            _ => None,
        }
    }
}

/// A mathematical callback request: the same three fields serve all four
/// callback kinds.
pub struct CallbackRequestV {
    pub request_id: int,
    pub evaluator_id: int,
    pub uri: Seq<char>,
}

pub open spec fn parse_callback_request(f: Seq<(Seq<char>, ValueV)>) -> Option<CallbackRequestV> {
    match (p_int(f, "requestId"@), p_int(f, "evaluatorId"@), p_str(f, "uri"@)) {
        (Some(rid), Some(eid), Some(uri)) => Some(
            CallbackRequestV { request_id: rid, evaluator_id: eid, uri },
        ),
        _ => None,
    }
}

/// The engine asks the client to read a resource URI.
#[derive(Debug, Clone, PartialEq)]
pub struct ReadResource {
    pub request_id: i64,
    pub evaluator_id: i64,
    pub uri: String,
}

impl View for ReadResource {
    type V = CallbackRequestV;

    open spec fn view(&self) -> CallbackRequestV {
        CallbackRequestV {
            request_id: self.request_id as int,
            evaluator_id: self.evaluator_id as int,
            uri: self.uri@,
        }
    }
}

impl ReadResource {
    pub fn from_fields(f: &Vec<(String, Value)>) -> (r: Option<ReadResource>)
        ensures
            match r {
                Some(m) => parse_callback_request(pairs_view(f@)) == Some(m@),
                None => parse_callback_request(pairs_view(f@)) is None,
            },
    {
        match (get_int(f, "requestId"), get_int(f, "evaluatorId"), get_str(f, "uri")) {
            (Some(rid), Some(eid), Some(uri)) => Some(
                ReadResource { request_id: rid, evaluator_id: eid, uri },
            ),
            _ => None,
        }
    }
}

/// The engine asks the client to read a module URI.
#[derive(Debug, Clone, PartialEq)]
pub struct ReadModule {
    pub request_id: i64,
    pub evaluator_id: i64,
    pub uri: String,
}

impl View for ReadModule {
    type V = CallbackRequestV;

    open spec fn view(&self) -> CallbackRequestV {
        CallbackRequestV {
            request_id: self.request_id as int,
            evaluator_id: self.evaluator_id as int,
            uri: self.uri@,
        }
    }
}

impl ReadModule {
    pub fn from_fields(f: &Vec<(String, Value)>) -> (r: Option<ReadModule>)
        ensures
            match r {
                Some(m) => parse_callback_request(pairs_view(f@)) == Some(m@),
                None => parse_callback_request(pairs_view(f@)) is None,
            },
    {
        match (get_int(f, "requestId"), get_int(f, "evaluatorId"), get_str(f, "uri")) {
            (Some(rid), Some(eid), Some(uri)) => Some(
                ReadModule { request_id: rid, evaluator_id: eid, uri },
            ),
            _ => None,
        }
    }
}

/// The engine asks the client to list resources under a URI.
#[derive(Debug, Clone, PartialEq)]
pub struct ListResources {
    pub request_id: i64,
    pub evaluator_id: i64,
    pub uri: String,
}

impl View for ListResources {
    type V = CallbackRequestV;

    open spec fn view(&self) -> CallbackRequestV {
        CallbackRequestV {
            request_id: self.request_id as int,
            evaluator_id: self.evaluator_id as int,
            uri: self.uri@,
        }
    }
}

impl ListResources {
    pub fn from_fields(f: &Vec<(String, Value)>) -> (r: Option<ListResources>)
        ensures
            match r {
                Some(m) => parse_callback_request(pairs_view(f@)) == Some(m@),
                None => parse_callback_request(pairs_view(f@)) is None,
            },
    {
        match (get_int(f, "requestId"), get_int(f, "evaluatorId"), get_str(f, "uri")) {
            (Some(rid), Some(eid), Some(uri)) => Some(
                ListResources { request_id: rid, evaluator_id: eid, uri },
            ),
            _ => None,
        }
    }
}

/// The engine asks the client to list modules under a URI.
#[derive(Debug, Clone, PartialEq)]
pub struct ListModules {
    pub request_id: i64,
    pub evaluator_id: i64,
    pub uri: String,
}

impl View for ListModules {
    type V = CallbackRequestV;

    open spec fn view(&self) -> CallbackRequestV {
        CallbackRequestV {
            request_id: self.request_id as int,
            evaluator_id: self.evaluator_id as int,
            uri: self.uri@,
        }
    }
}

impl ListModules {
    pub fn from_fields(f: &Vec<(String, Value)>) -> (r: Option<ListModules>)
        ensures
            match r {
                Some(m) => parse_callback_request(pairs_view(f@)) == Some(m@),
                None => parse_callback_request(pairs_view(f@)) is None,
            },
    {
        match (get_int(f, "requestId"), get_int(f, "evaluatorId"), get_str(f, "uri")) {
            (Some(rid), Some(eid), Some(uri)) => Some(
                ListModules { request_id: rid, evaluator_id: eid, uri },
            ),
            _ => None,
        }
    }
}

/// An unsolicited log line from the engine.
#[derive(Debug, Clone, PartialEq)]
pub struct Log {
    pub evaluator_id: i64,
    pub level: i8,
    pub message: String,
    pub frame_uri: String,
}

pub struct LogV {
    pub evaluator_id: int,
    pub level: int,
    pub message: Seq<char>,
    pub frame_uri: Seq<char>,
}

impl View for Log {
    type V = LogV;

    open spec fn view(&self) -> LogV {
        LogV {
            evaluator_id: self.evaluator_id as int,
            level: self.level as int,
            message: self.message@,
            frame_uri: self.frame_uri@,
        }
    }
}

pub open spec fn parse_log(f: Seq<(Seq<char>, ValueV)>) -> Option<LogV> {
    match (
        p_int(f, "evaluatorId"@),
        p_int(f, "level"@),
        p_str(f, "message"@),
        p_str(f, "frameUri"@),
    ) {
        (Some(eid), Some(level), Some(message), Some(frame_uri)) => if i8::MIN <= level
            <= i8::MAX {
            Some(LogV { evaluator_id: eid, level, message, frame_uri })
        } else {
            None
        },
        _ => None,
    }
}

impl Log {
    pub fn from_fields(f: &Vec<(String, Value)>) -> (r: Option<Log>)
        ensures
            match r {
                Some(m) => parse_log(pairs_view(f@)) == Some(m@),
                None => parse_log(pairs_view(f@)) is None,
            },
    {
        match (
            get_int(f, "evaluatorId"),
            get_int(f, "level"),
            get_str(f, "message"),
            get_str(f, "frameUri"),
        ) {
            (Some(eid), Some(level), Some(message), Some(frame_uri)) => if -128 <= level && level
                <= 127 {
                Some(Log { evaluator_id: eid, level: level as i8, message, frame_uri })
            } else {
                None
            },
            _ => None,
        }
    }
}

/// Every message the engine can put on the wire.
#[derive(Debug, Clone, PartialEq)]
pub enum IncomingMessage {
    CreateEvaluatorResponse(CreateEvaluatorResponse),
    EvaluateResponse(EvaluateResponse),
    ReadResource(ReadResource),
    ReadModule(ReadModule),
    ListResources(ListResources),
    ListModules(ListModules),
    Log(Log),
}

pub enum IncomingMessageV {
    CreateEvaluatorResponse(CreateEvaluatorResponseV),
    EvaluateResponse(EvaluateResponseV),
    ReadResource(CallbackRequestV),
    ReadModule(CallbackRequestV),
    ListResources(CallbackRequestV),
    ListModules(CallbackRequestV),
    Log(LogV),
}

impl View for IncomingMessage {
    type V = IncomingMessageV;

    open spec fn view(&self) -> IncomingMessageV {
        match self {
            IncomingMessage::CreateEvaluatorResponse(m) => IncomingMessageV::CreateEvaluatorResponse(
                m@,
            ),
            IncomingMessage::EvaluateResponse(m) => IncomingMessageV::EvaluateResponse(m@),
            IncomingMessage::ReadResource(m) => IncomingMessageV::ReadResource(m@),
            IncomingMessage::ReadModule(m) => IncomingMessageV::ReadModule(m@),
            IncomingMessage::ListResources(m) => IncomingMessageV::ListResources(m@),
            IncomingMessage::ListModules(m) => IncomingMessageV::ListModules(m@),
            IncomingMessage::Log(m) => IncomingMessageV::Log(m@),
        }
    }
}

/// A message type that can be read back from a decoded frame's field map.
pub trait DeserializableMessage where Self: Sized {
    fn deserialize(fields: &Vec<(String, Value)>) -> Option<Self>;
}

impl DeserializableMessage for CreateEvaluatorResponse {
    fn deserialize(fields: &Vec<(String, Value)>) -> Option<Self> {
        CreateEvaluatorResponse::from_fields(fields)
    }
}

impl DeserializableMessage for EvaluateResponse {
    fn deserialize(fields: &Vec<(String, Value)>) -> Option<Self> {
        EvaluateResponse::from_fields(fields)
    }
}

impl DeserializableMessage for ReadResource {
    fn deserialize(fields: &Vec<(String, Value)>) -> Option<Self> {
        ReadResource::from_fields(fields)
    }
}

impl DeserializableMessage for ReadModule {
    fn deserialize(fields: &Vec<(String, Value)>) -> Option<Self> {
        ReadModule::from_fields(fields)
    }
}

impl DeserializableMessage for ListResources {
    fn deserialize(fields: &Vec<(String, Value)>) -> Option<Self> {
        ListResources::from_fields(fields)
    }
}

impl DeserializableMessage for ListModules {
    fn deserialize(fields: &Vec<(String, Value)>) -> Option<Self> {
        ListModules::from_fields(fields)
    }
}

impl DeserializableMessage for Log {
    fn deserialize(fields: &Vec<(String, Value)>) -> Option<Self> {
        Log::from_fields(fields)
    }
}

fn clone_opt_string(v: &Option<String>) -> (r: Option<String>)
    ensures
        match v {
            Some(s) => r matches Some(t) && t@ == s@,
            None => r is None,
        },
{
    match v {
        Some(s) => Some(s.clone()),
        None => None,
    }
}

fn clone_opt_bytes(v: &Option<Vec<u8>>) -> (r: Option<Vec<u8>>)
    ensures
        match v {
            Some(b) => r matches Some(c) && c@ == b@,
            None => r is None,
        },
{
    match v {
        Some(b) => {
            let mut copy: Vec<u8> = Vec::new();
            copy.extend_from_slice(b.as_slice());
            assert(copy@ =~= b@);
            Some(copy)
        },
        None => None,
    }
}

impl IncomingMessage {
    /// The payload where this is a create-evaluator response.
    pub fn create_evaluator_response(&self) -> (r: Option<CreateEvaluatorResponse>)
        ensures
            match self {
                IncomingMessage::CreateEvaluatorResponse(m) => r matches Some(x) && x@ == m@,
                _ => r is None,
            },
    {
        if let IncomingMessage::CreateEvaluatorResponse(m) = self {
            Some(
                CreateEvaluatorResponse {
                    request_id: m.request_id,
                    evaluator_id: m.evaluator_id,
                    error: clone_opt_string(&m.error),
                },
            )
        } else {
            None
        }
    }

    /// The payload where this is an evaluate response.
    pub fn evaluate_response(&self) -> (r: Option<EvaluateResponse>)
        ensures
            match self {
                IncomingMessage::EvaluateResponse(m) => r matches Some(x) && x@ == m@,
                _ => r is None,
            },
    {
        if let IncomingMessage::EvaluateResponse(m) = self {
            Some(
                EvaluateResponse {
                    request_id: m.request_id,
                    evaluator_id: m.evaluator_id,
                    result: clone_opt_bytes(&m.result),
                    error: clone_opt_string(&m.error),
                },
            )
        } else {
            None
        }
    }

    /// The payload where this is a read-resource callback.
    pub fn read_resource(&self) -> (r: Option<ReadResource>)
        ensures
            match self {
                IncomingMessage::ReadResource(m) => r matches Some(x) && x@ == m@,
                _ => r is None,
            },
    {
        if let IncomingMessage::ReadResource(m) = self {
            Some(
                ReadResource {
                    request_id: m.request_id,
                    evaluator_id: m.evaluator_id,
                    uri: m.uri.clone(),
                },
            )
        } else {
            None
        }
    }

    /// The payload where this is a read-module callback.
    pub fn read_module(&self) -> (r: Option<ReadModule>)
        ensures
            match self {
                IncomingMessage::ReadModule(m) => r matches Some(x) && x@ == m@,
                _ => r is None,
            },
    {
        if let IncomingMessage::ReadModule(m) = self {
            Some(
                ReadModule {
                    request_id: m.request_id,
                    evaluator_id: m.evaluator_id,
                    uri: m.uri.clone(),
                },
            )
        } else {
            None
        }
    }

    /// The payload where this is a list-resources callback.
    pub fn list_resources(&self) -> (r: Option<ListResources>)
        ensures
            match self {
                IncomingMessage::ListResources(m) => r matches Some(x) && x@ == m@,
                _ => r is None,
            },
    {
        if let IncomingMessage::ListResources(m) = self {
            Some(
                ListResources {
                    request_id: m.request_id,
                    evaluator_id: m.evaluator_id,
                    uri: m.uri.clone(),
                },
            )
        } else {
            None
        }
    }

    /// The payload where this is a list-modules callback.
    pub fn list_modules(&self) -> (r: Option<ListModules>)
        ensures
            match self {
                IncomingMessage::ListModules(m) => r matches Some(x) && x@ == m@,
                _ => r is None,
            },
    {
        if let IncomingMessage::ListModules(m) = self {
            Some(
                ListModules {
                    request_id: m.request_id,
                    evaluator_id: m.evaluator_id,
                    uri: m.uri.clone(),
                },
            )
        } else {
            None
        }
    }

    /// The payload where this is a log message.
    pub fn log(&self) -> (r: Option<Log>)
        ensures
            match self {
                IncomingMessage::Log(m) => r matches Some(x) && x@ == m@,
                _ => r is None,
            },
    {
        if let IncomingMessage::Log(m) = self {
            Some(
                Log {
                    evaluator_id: m.evaluator_id,
                    level: m.level,
                    message: m.message.clone(),
                    frame_uri: m.frame_uri.clone(),
                },
            )
        } else {
            None
        }
    }
}

/// The code and field map of a decoded frame value `[code, fields]`.
pub open spec fn frame_of(v: ValueV) -> Option<(int, Seq<(Seq<char>, ValueV)>)> {
    match v {
        ValueV::Arr(parts) => if parts.len() == 2 {
            match (parts[0], parts[1]) {
                (ValueV::Int(c), ValueV::Dict(f)) => Some((c, f)),
                _ => None,
            }
        } else {
            None
        },
        _ => None,
    }
}

/// Whether `c` is a code the engine may send to the client.
pub open spec fn is_incoming_code(c: int) -> bool {
    c == CODE_NEW_EVALUATOR_RESPONSE || c == CODE_EVALUATE_RESPONSE || c == CODE_EVALUATE_LOG || c
        == CODE_EVALUATE_READ || c == CODE_EVALUATE_READ_MODULE || c == CODE_LIST_RESOURCES_REQUEST
        || c == CODE_LIST_MODULES_REQUEST
}

/// The message carried by an inbound frame of code `c` and fields `f`.
pub open spec fn incoming_of(c: int, f: Seq<(Seq<char>, ValueV)>) -> Option<IncomingMessageV> {
    if c == CODE_NEW_EVALUATOR_RESPONSE {
        match parse_create_evaluator_response(f) {
            Some(m) => Some(IncomingMessageV::CreateEvaluatorResponse(m)),
            None => None,
        }
    } else if c == CODE_EVALUATE_RESPONSE {
        match parse_evaluate_response(f) {
            Some(m) => Some(IncomingMessageV::EvaluateResponse(m)),
            None => None,
        }
    } else if c == CODE_EVALUATE_LOG {
        match parse_log(f) {
            Some(m) => Some(IncomingMessageV::Log(m)),
            None => None,
        }
    } else if c == CODE_EVALUATE_READ {
        match parse_callback_request(f) {
            Some(m) => Some(IncomingMessageV::ReadResource(m)),
            None => None,
        }
    } else if c == CODE_EVALUATE_READ_MODULE {
        match parse_callback_request(f) {
            Some(m) => Some(IncomingMessageV::ReadModule(m)),
            None => None,
        }
    } else if c == CODE_LIST_RESOURCES_REQUEST {
        match parse_callback_request(f) {
            Some(m) => Some(IncomingMessageV::ListResources(m)),
            None => None,
        }
    } else if c == CODE_LIST_MODULES_REQUEST {
        match parse_callback_request(f) {
            Some(m) => Some(IncomingMessageV::ListModules(m)),
            None => None,
        }
    } else {
        None
    }
}

/// Decodes one whole inbound frame to its message.
///
/// Bytes that are not one well-formed frame, or whose field map does not
/// fit the schema its code selects, are a `MalformedFrame`; a frame whose
/// code is outside the engine-to-client catalogue is an
/// `UnknownMessageCode`. After a malformed frame the stream can no longer
/// be decoded: the caller must treat the connection as broken.
pub fn decode_incoming(bytes: &Vec<u8>) -> (r: Result<IncomingMessage, PklError>)
    ensures
        match r {
            Ok(m) => (dec_full(bytes@) matches Some(v) && frame_of(v) matches Some((c, f))
                && incoming_of(c, f) == Some(m@)),
            Err(e) => match dec_full(bytes@) {
                None => e == PklError::MalformedFrame,
                Some(v) => match frame_of(v) {
                    None => e == PklError::MalformedFrame,
                    Some((c, f)) => if is_incoming_code(c) {
                        incoming_of(c, f) is None && e == PklError::MalformedFrame
                    } else if 0 <= c <= 255 {
                        e == PklError::UnknownMessageCode(c as u8)
                    } else {
                        e == PklError::MalformedFrame
                    },
                },
            },
        },
{
    let v = match decode(bytes) {
        Some(v) => v,
        None => {
            return Err(PklError::MalformedFrame);
        },
    };
    let parts = match v {
        Value::Arr(parts) => parts,
        _ => {
            return Err(PklError::MalformedFrame);
        },
    };
    if parts.len() != 2 {
        proof {
            crate::msgpack::lemma_seq_view(parts@);
        }
        return Err(PklError::MalformedFrame);
    }
    proof {
        crate::msgpack::lemma_seq_view(parts@);
    }
    let code: i64 = match &parts[0] {
        Value::Int(c) => *c,
        _ => {
            return Err(PklError::MalformedFrame);
        },
    };
    let fields = match &parts[1] {
        Value::Dict(f) => f,
        _ => {
            return Err(PklError::MalformedFrame);
        },
    };
    if code == CODE_NEW_EVALUATOR_RESPONSE as i64 {
        match CreateEvaluatorResponse::from_fields(fields) {
            Some(m) => Ok(IncomingMessage::CreateEvaluatorResponse(m)),
            None => Err(PklError::MalformedFrame),
        }
    } else if code == CODE_EVALUATE_RESPONSE as i64 {
        match EvaluateResponse::from_fields(fields) {
            Some(m) => Ok(IncomingMessage::EvaluateResponse(m)),
            None => Err(PklError::MalformedFrame),
        }
    } else if code == CODE_EVALUATE_LOG as i64 {
        match Log::from_fields(fields) {
            Some(m) => Ok(IncomingMessage::Log(m)),
            None => Err(PklError::MalformedFrame),
        }
    } else if code == CODE_EVALUATE_READ as i64 {
        match ReadResource::from_fields(fields) {
            Some(m) => Ok(IncomingMessage::ReadResource(m)),
            None => Err(PklError::MalformedFrame),
        }
    } else if code == CODE_EVALUATE_READ_MODULE as i64 {
        match ReadModule::from_fields(fields) {
            Some(m) => Ok(IncomingMessage::ReadModule(m)),
            None => Err(PklError::MalformedFrame),
        }
    } else if code == CODE_LIST_RESOURCES_REQUEST as i64 {
        match ListResources::from_fields(fields) {
            Some(m) => Ok(IncomingMessage::ListResources(m)),
            None => Err(PklError::MalformedFrame),
        }
    } else if code == CODE_LIST_MODULES_REQUEST as i64 {
        match ListModules::from_fields(fields) {
            Some(m) => Ok(IncomingMessage::ListModules(m)),
            None => Err(PklError::MalformedFrame),
        }
    } else if 0 <= code && code <= 255 {
        Err(PklError::UnknownMessageCode(code as u8))
    } else {
        Err(PklError::MalformedFrame)
    }
}

} // verus!
