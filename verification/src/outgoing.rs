//! Messages the client sends to the engine, and their exact wire layout.
//!
//! Each message is a struct whose `fields` spec function gives its field
//! map in declaration order; optional fields that are `None` are omitted
//! from the map, never written as an explicit null. `pack_message`
//! produces the frame `[code, fields]` bytes, stated byte-for-byte over
//! the codec's encoding functions.
use vstd::prelude::*;

verus! {

use crate::msgpack::{
    Value, ValueV, valid, enc_value, pairs_view, seq_view, lemma_seq_view, lemma_pairs_view,
    lemma_seq_view_push, lemma_pairs_view_push, encode, dec_full, dec_value, lemma_dec_enc,
};
use crate::code::{
    CODE_NEW_EVALUATOR, CODE_NEW_EVALUATOR_RESPONSE, CODE_CLOSE_EVALUATOR, CODE_EVALUATE,
    CODE_EVALUATE_RESPONSE, CODE_EVALUATE_READ_RESPONSE, CODE_EVALUATE_READ_MODULE_RESPONSE,
    CODE_LIST_RESOURCES_RESPONSE, CODE_LIST_MODULES_RESPONSE,
};

/// The one-entry segment for a present optional field, or nothing.
pub open spec fn opt_field(k: Seq<char>, v: Option<ValueV>) -> Seq<(Seq<char>, ValueV)> {
    match v {
        None => Seq::empty(),
        Some(x) => seq![(k, x)],
    }
}

pub open spec fn opt_int(v: Option<i64>) -> Option<ValueV> {
    match v {
        None => None,
        Some(i) => Some(ValueV::Int(i as int)),
    }
}

pub open spec fn opt_str(v: Option<String>) -> Option<ValueV> {
    match v {
        None => None,
        Some(s) => Some(ValueV::Str(s@)),
    }
}

pub open spec fn opt_bin(v: Option<Vec<u8>>) -> Option<ValueV> {
    match v {
        None => None,
        Some(b) => Some(ValueV::Bin(b@)),
    }
}

/// A list of strings as an array of string values.
pub open spec fn str_seq(s: Seq<String>) -> Seq<ValueV> {
    Seq::new(s.len(), |i: int| ValueV::Str(s[i]@))
}

/// An ordered string-to-string map as a map value.
pub open spec fn str_pairs(s: Seq<(String, String)>) -> Seq<(Seq<char>, ValueV)> {
    Seq::new(s.len(), |i: int| (s[i].0@, ValueV::Str(s[i].1@)))
}

/// Appends one integer field.
fn push_int_field(f: &mut Vec<(String, Value)>, key: &str, v: i64)
    ensures
        pairs_view(final(f)@) == pairs_view(old(f)@) + seq![(key@, ValueV::Int(v as int))],
{
    let e = (String::from_str(key), Value::Int(v));
    let ghost ge = e;
    f.push(e);
    proof {
        lemma_pairs_view_push(old(f)@, ge);
    }
}

/// Appends one boolean field.
fn push_bool_field(f: &mut Vec<(String, Value)>, key: &str, v: bool)
    ensures
        pairs_view(final(f)@) == pairs_view(old(f)@) + seq![(key@, ValueV::Bool(v))],
{
    let e = (String::from_str(key), Value::Bool(v));
    let ghost ge = e;
    f.push(e);
    proof {
        lemma_pairs_view_push(old(f)@, ge);
    }
}

/// Appends one string field.
fn push_str_field(f: &mut Vec<(String, Value)>, key: &str, v: &String)
    ensures
        pairs_view(final(f)@) == pairs_view(old(f)@) + seq![(key@, ValueV::Str(v@))],
{
    let e = (String::from_str(key), Value::Str(v.clone()));
    let ghost ge = e;
    f.push(e);
    proof {
        lemma_pairs_view_push(old(f)@, ge);
    }
}

/// Appends one field with an already-built value.
fn push_value_field(f: &mut Vec<(String, Value)>, key: &str, v: Value)
    ensures
        pairs_view(final(f)@) == pairs_view(old(f)@) + seq![(key@, v@)],
{
    let ghost gv = v@;
    let e = (String::from_str(key), v);
    let ghost ge = e;
    f.push(e);
    proof {
        lemma_pairs_view_push(old(f)@, ge);
    }
}

/// Appends an optional integer field; absent stays absent.
fn push_opt_int_field(f: &mut Vec<(String, Value)>, key: &str, v: &Option<i64>)
    ensures
        pairs_view(final(f)@) == pairs_view(old(f)@) + opt_field(key@, opt_int(*v)),
{
    if let Some(i) = v {
        push_int_field(f, key, *i);
    }
    assert(pairs_view(f@) =~= pairs_view(old(f)@) + opt_field(key@, opt_int(*v)));
}

/// Appends an optional string field; absent stays absent.
fn push_opt_str_field(f: &mut Vec<(String, Value)>, key: &str, v: &Option<String>)
    ensures
        pairs_view(final(f)@) == pairs_view(old(f)@) + opt_field(key@, opt_str(*v)),
{
    if let Some(s) = v {
        push_str_field(f, key, s);
    }
    assert(pairs_view(f@) =~= pairs_view(old(f)@) + opt_field(key@, opt_str(*v)));
}

/// Appends an optional binary field; absent stays absent.
fn push_opt_bin_field(f: &mut Vec<(String, Value)>, key: &str, v: &Option<Vec<u8>>)
    ensures
        pairs_view(final(f)@) == pairs_view(old(f)@) + opt_field(key@, opt_bin(*v)),
{
    if let Some(b) = v {
        let mut copy: Vec<u8> = Vec::new();
        copy.extend_from_slice(b.as_slice());
        assert(copy@ =~= b@);
        push_value_field(f, key, Value::Bin(copy));
    }
    assert(pairs_view(f@) =~= pairs_view(old(f)@) + opt_field(key@, opt_bin(*v)));
}

/// A list of strings as one array value.
fn strlist_value(list: &Vec<String>) -> (r: Value)
    ensures
        r@ == ValueV::Arr(str_seq(list@)),
{
    let mut arr: Vec<Value> = Vec::new();
    let n = list.len();
    for i in 0..n
        invariant
            n == list@.len(),
            seq_view(arr@) == str_seq(list@).take(i as int),
    {
        let ghost before = arr@;
        arr.push(Value::Str(list[i].clone()));
        proof {
            lemma_seq_view_push(before, arr@.last());
            assert(seq_view(arr@) =~= str_seq(list@).take(i + 1));
        }
    }
    proof {
        assert(str_seq(list@).take(n as int) =~= str_seq(list@));
    }
    Value::Arr(arr)
}

/// An ordered string map as one map value.
fn strmap_value(m: &Vec<(String, String)>) -> (r: Value)
    ensures
        r@ == ValueV::Dict(str_pairs(m@)),
{
    let mut out: Vec<(String, Value)> = Vec::new();
    let n = m.len();
    for i in 0..n
        invariant
            n == m@.len(),
            pairs_view(out@) == str_pairs(m@).take(i as int),
    {
        let ghost before = out@;
        out.push((m[i].0.clone(), Value::Str(m[i].1.clone())));
        proof {
            lemma_pairs_view_push(before, out@.last());
            assert(pairs_view(out@) =~= str_pairs(m@).take(i + 1));
        }
    }
    proof {
        assert(str_pairs(m@).take(n as int) =~= str_pairs(m@));
    }
    Value::Dict(out)
}

/// A module reader the client offers for a URI scheme.
#[derive(Debug, Clone, PartialEq)]
pub struct ModuleReader {
    pub scheme: String,
    pub has_hierarchical_uris: bool,
    pub is_globbable: bool,
    pub is_local: bool,
}

impl ModuleReader {
    pub open spec fn fields(self) -> Seq<(Seq<char>, ValueV)> {
        seq![
            ("scheme"@, ValueV::Str(self.scheme@)),
            ("hasHierarchicalUris"@, ValueV::Bool(self.has_hierarchical_uris)),
            ("isGlobbable"@, ValueV::Bool(self.is_globbable)),
            ("isLocal"@, ValueV::Bool(self.is_local)),
        ]
    }

    pub fn to_value(&self) -> (r: Value)
        ensures
            r@ == ValueV::Dict(self.fields()),
    {
        let mut f: Vec<(String, Value)> = Vec::new();
        push_str_field(&mut f, "scheme", &self.scheme);
        push_bool_field(&mut f, "hasHierarchicalUris", self.has_hierarchical_uris);
        push_bool_field(&mut f, "isGlobbable", self.is_globbable);
        push_bool_field(&mut f, "isLocal", self.is_local);
        assert(pairs_view(f@) =~= self.fields());
        Value::Dict(f)
    }
}

/// A resource reader the client offers for a URI scheme.
#[derive(Debug, Clone, PartialEq)]
pub struct ResourceReader {
    pub scheme: String,
    pub has_hierarchical_uris: bool,
    pub is_globbable: bool,
}

impl ResourceReader {
    pub open spec fn fields(self) -> Seq<(Seq<char>, ValueV)> {
        seq![
            ("scheme"@, ValueV::Str(self.scheme@)),
            ("hasHierarchicalUris"@, ValueV::Bool(self.has_hierarchical_uris)),
            ("isGlobbable"@, ValueV::Bool(self.is_globbable)),
        ]
    }

    pub fn to_value(&self) -> (r: Value)
        ensures
            r@ == ValueV::Dict(self.fields()),
    {
        let mut f: Vec<(String, Value)> = Vec::new();
        push_str_field(&mut f, "scheme", &self.scheme);
        push_bool_field(&mut f, "hasHierarchicalUris", self.has_hierarchical_uris);
        push_bool_field(&mut f, "isGlobbable", self.is_globbable);
        assert(pairs_view(f@) =~= self.fields());
        Value::Dict(f)
    }
}

/// One entry of a directory listing sent back for a list callback.
#[derive(Debug, Clone, PartialEq)]
pub struct PathElement {
    pub name: String,
    pub is_directory: bool,
}

impl PathElement {
    pub open spec fn fields(self) -> Seq<(Seq<char>, ValueV)> {
        seq![
            ("name"@, ValueV::Str(self.name@)),
            ("isDirectory"@, ValueV::Bool(self.is_directory)),
        ]
    }

    pub fn to_value(&self) -> (r: Value)
        ensures
            r@ == ValueV::Dict(self.fields()),
    {
        let mut f: Vec<(String, Value)> = Vec::new();
        push_str_field(&mut f, "name", &self.name);
        push_bool_field(&mut f, "isDirectory", self.is_directory);
        assert(pairs_view(f@) =~= self.fields());
        Value::Dict(f)
    }
}

/// Checksums pinned for a project dependency.
#[derive(Debug, Clone, PartialEq)]
pub struct Checksums {
    pub checksums: String,
}

impl Checksums {
    pub open spec fn fields(self) -> Seq<(Seq<char>, ValueV)> {
        seq![("checksums"@, ValueV::Str(self.checksums@))]
    }

    pub fn to_value(&self) -> (r: Value)
        ensures
            r@ == ValueV::Dict(self.fields()),
    {
        let mut f: Vec<(String, Value)> = Vec::new();
        push_str_field(&mut f, "checksums", &self.checksums);
        assert(pairs_view(f@) =~= self.fields());
        Value::Dict(f)
    }
}

pub open spec fn module_readers_seq(s: Seq<ModuleReader>) -> Seq<ValueV> {
    Seq::new(s.len(), |i: int| ValueV::Dict(s[i].fields()))
}

pub open spec fn resource_readers_seq(s: Seq<ResourceReader>) -> Seq<ValueV> {
    Seq::new(s.len(), |i: int| ValueV::Dict(s[i].fields()))
}

pub open spec fn path_elements_seq(s: Seq<PathElement>) -> Seq<ValueV> {
    Seq::new(s.len(), |i: int| ValueV::Dict(s[i].fields()))
}

fn module_readers_value(list: &Vec<ModuleReader>) -> (r: Value)
    ensures
        r@ == ValueV::Arr(module_readers_seq(list@)),
{
    let mut arr: Vec<Value> = Vec::new();
    let n = list.len();
    for i in 0..n
        invariant
            n == list@.len(),
            seq_view(arr@) == module_readers_seq(list@).take(i as int),
    {
        let ghost before = arr@;
        arr.push(list[i].to_value());
        proof {
            lemma_seq_view_push(before, arr@.last());
            assert(seq_view(arr@) =~= module_readers_seq(list@).take(i + 1));
        }
    }
    proof {
        assert(module_readers_seq(list@).take(n as int) =~= module_readers_seq(list@));
    }
    Value::Arr(arr)
}

fn resource_readers_value(list: &Vec<ResourceReader>) -> (r: Value)
    ensures
        r@ == ValueV::Arr(resource_readers_seq(list@)),
{
    let mut arr: Vec<Value> = Vec::new();
    let n = list.len();
    for i in 0..n
        invariant
            n == list@.len(),
            seq_view(arr@) == resource_readers_seq(list@).take(i as int),
    {
        let ghost before = arr@;
        arr.push(list[i].to_value());
        proof {
            lemma_seq_view_push(before, arr@.last());
            assert(seq_view(arr@) =~= resource_readers_seq(list@).take(i + 1));
        }
    }
    proof {
        assert(resource_readers_seq(list@).take(n as int) =~= resource_readers_seq(list@));
    }
    Value::Arr(arr)
}

fn path_elements_value(list: &Vec<PathElement>) -> (r: Value)
    ensures
        r@ == ValueV::Arr(path_elements_seq(list@)),
{
    let mut arr: Vec<Value> = Vec::new();
    let n = list.len();
    for i in 0..n
        invariant
            n == list@.len(),
            seq_view(arr@) == path_elements_seq(list@).take(i as int),
    {
        let ghost before = arr@;
        arr.push(list[i].to_value());
        proof {
            lemma_seq_view_push(before, arr@.last());
            assert(seq_view(arr@) =~= path_elements_seq(list@).take(i + 1));
        }
    }
    proof {
        assert(path_elements_seq(list@).take(n as int) =~= path_elements_seq(list@));
    }
    Value::Arr(arr)
}

/// A project or one dependency of it, recursively.
#[derive(Debug, PartialEq)]
pub struct ProjectOrDependency {
    pub package_uri: Option<String>,
    /// Sent under the key `type`.
    pub dependency_type: String,
    pub project_file_uri: Option<String>,
    pub checksums: Option<Checksums>,
    pub dependencies: Vec<(String, ProjectOrDependency)>,
}

/// The entries of a dependency map, each value a nested project map.
pub open spec fn deps_fields(d: Seq<(String, ProjectOrDependency)>) -> Seq<(Seq<char>, ValueV)>
    decreases d,
{
    if d.len() == 0 {
        Seq::empty()
    } else {
        seq![(d.first().0@, ValueV::Dict(d.first().1.fields()))] + deps_fields(d.drop_first())
    }
}

pub proof fn lemma_deps_fields(d: Seq<(String, ProjectOrDependency)>)
    ensures
        deps_fields(d).len() == d.len(),
        forall|i: int|
            0 <= i < d.len() ==> deps_fields(d)[i] == (d[i].0@, ValueV::Dict(d[i].1.fields())),
    decreases d,
{
    if d.len() > 0 {
        lemma_deps_fields(d.drop_first());
        assert forall|i: int|
            0 <= i < d.len() implies deps_fields(d)[i] == (d[i].0@, ValueV::Dict(
            d[i].1.fields(),
        )) by {
            if i == 0 {
                assert(deps_fields(d)[0] == (d.first().0@, ValueV::Dict(d.first().1.fields())));
            } else {
                assert(deps_fields(d)[i] == deps_fields(d.drop_first())[i - 1]);
                assert(d.drop_first()[i - 1] == d[i]);
            }
        }
    }
}

impl ProjectOrDependency {
    pub open spec fn fields(self) -> Seq<(Seq<char>, ValueV)>
        decreases self,
    {
        opt_field("packageUri"@, opt_str(self.package_uri)) + seq![
            ("type"@, ValueV::Str(self.dependency_type@)),
        ] + opt_field(
            "projectFileUri"@,
            opt_str(self.project_file_uri),
        ) + opt_field(
            "checksums"@,
            match self.checksums {
                None => None,
                Some(c) => Some(ValueV::Dict(c.fields())),
            },
        ) + seq![("dependencies"@, ValueV::Dict(deps_fields(self.dependencies@)))]
    }

    pub fn to_value(&self) -> (r: Value)
        ensures
            r@ == ValueV::Dict(self.fields()),
        decreases self,
    {
        let mut f: Vec<(String, Value)> = Vec::new();
        push_opt_str_field(&mut f, "packageUri", &self.package_uri);
        push_str_field(&mut f, "type", &self.dependency_type);
        push_opt_str_field(&mut f, "projectFileUri", &self.project_file_uri);
        if let Some(c) = &self.checksums {
            push_value_field(&mut f, "checksums", c.to_value());
        }
        let mut deps: Vec<(String, Value)> = Vec::new();
        let n = self.dependencies.len();
        let ghost fbase = pairs_view(f@);
        for i in 0..n
            invariant
                n == self.dependencies@.len(),
                pairs_view(deps@) == deps_fields(self.dependencies@.take(i as int)),
        {
            proof {
                assert(decreases_to!(*self => self.dependencies));
                assert(decreases_to!(self.dependencies => self.dependencies@));
                assert(decreases_to!(self.dependencies@ => self.dependencies@[i as int]));
                assert(decreases_to!(self.dependencies@[i as int] => self.dependencies@[
                i as int].1));
            }
            let ghost before = deps@;
            let key = self.dependencies[i].0.clone();
            let nested = self.dependencies[i].1.to_value();
            deps.push((key, nested));
            proof {
                lemma_pairs_view_push(before, deps@.last());
                lemma_deps_fields(self.dependencies@.take(i + 1));
                lemma_deps_fields(self.dependencies@.take(i as int));
                assert forall|j: int|
                    0 <= j < i + 1 implies deps_fields(self.dependencies@.take(i + 1))[j]
                    == pairs_view(deps@)[j] by {
                    lemma_pairs_view(deps@);
                    lemma_pairs_view(before);
                }
                assert(pairs_view(deps@) =~= deps_fields(self.dependencies@.take(i + 1)));
            }
        }
        proof {
            assert(self.dependencies@.take(n as int) =~= self.dependencies@);
        }
        push_value_field(&mut f, "dependencies", Value::Dict(deps));
        assert(pairs_view(f@) =~= self.fields());
        Value::Dict(f)
    }
}

/// The create-evaluator handshake request.
#[derive(Debug, PartialEq)]
pub struct CreateEvaluator {
    pub request_id: i64,
    pub client_resource_readers: Option<Vec<ResourceReader>>,
    pub client_module_readers: Option<Vec<ModuleReader>>,
    pub module_paths: Option<Vec<String>>,
    pub env: Option<Vec<(String, String)>>,
    pub properties: Option<Vec<(String, String)>>,
    pub output_format: Option<String>,
    pub allowed_modules: Option<Vec<String>>,
    pub allowed_resources: Option<Vec<String>>,
    pub root_dir: Option<String>,
    pub cache_dir: Option<String>,
    pub project: Option<ProjectOrDependency>,
    pub timeout_seconds: Option<i64>,
}

impl CreateEvaluator {
    pub open spec fn fields(self) -> Seq<(Seq<char>, ValueV)> {
        seq![("requestId"@, ValueV::Int(self.request_id as int))] + opt_field(
            "clientResourceReaders"@,
            match self.client_resource_readers {
                None => None,
                Some(v) => Some(ValueV::Arr(resource_readers_seq(v@))),
            },
        ) + opt_field(
            "clientModuleReaders"@,
            match self.client_module_readers {
                None => None,
                Some(v) => Some(ValueV::Arr(module_readers_seq(v@))),
            },
        ) + opt_field(
            "modulePaths"@,
            match self.module_paths {
                None => None,
                Some(v) => Some(ValueV::Arr(str_seq(v@))),
            },
        ) + opt_field(
            "env"@,
            match self.env {
                None => None,
                Some(v) => Some(ValueV::Dict(str_pairs(v@))),
            },
        ) + opt_field(
            "properties"@,
            match self.properties {
                None => None,
                Some(v) => Some(ValueV::Dict(str_pairs(v@))),
            },
        ) + opt_field("outputFormat"@, opt_str(self.output_format)) + opt_field(
            "allowedModules"@,
            match self.allowed_modules {
                None => None,
                Some(v) => Some(ValueV::Arr(str_seq(v@))),
            },
        ) + opt_field(
            "allowedResources"@,
            match self.allowed_resources {
                None => None,
                Some(v) => Some(ValueV::Arr(str_seq(v@))),
            },
        ) + opt_field("rootDir"@, opt_str(self.root_dir)) + opt_field(
            "cacheDir"@,
            opt_str(self.cache_dir),
        ) + opt_field(
            "project"@,
            match self.project {
                None => None,
                Some(p) => Some(ValueV::Dict(p.fields())),
            },
        ) + opt_field("timeoutSeconds"@, opt_int(self.timeout_seconds))
    }

    pub fn to_value(&self) -> (r: Value)
        ensures
            r@ == ValueV::Dict(self.fields()),
    {
        let mut f: Vec<(String, Value)> = Vec::new();
        push_int_field(&mut f, "requestId", self.request_id);
        if let Some(v) = &self.client_resource_readers {
            push_value_field(&mut f, "clientResourceReaders", resource_readers_value(v));
        }
        if let Some(v) = &self.client_module_readers {
            push_value_field(&mut f, "clientModuleReaders", module_readers_value(v));
        }
        if let Some(v) = &self.module_paths {
            push_value_field(&mut f, "modulePaths", strlist_value(v));
        }
        if let Some(v) = &self.env {
            push_value_field(&mut f, "env", strmap_value(v));
        }
        if let Some(v) = &self.properties {
            push_value_field(&mut f, "properties", strmap_value(v));
        }
        push_opt_str_field(&mut f, "outputFormat", &self.output_format);
        if let Some(v) = &self.allowed_modules {
            push_value_field(&mut f, "allowedModules", strlist_value(v));
        }
        if let Some(v) = &self.allowed_resources {
            push_value_field(&mut f, "allowedResources", strlist_value(v));
        }
        push_opt_str_field(&mut f, "rootDir", &self.root_dir);
        push_opt_str_field(&mut f, "cacheDir", &self.cache_dir);
        if let Some(p) = &self.project {
            push_value_field(&mut f, "project", p.to_value());
        }
        push_opt_int_field(&mut f, "timeoutSeconds", &self.timeout_seconds);
        assert(pairs_view(f@) =~= self.fields());
        Value::Dict(f)
    }
}

/// The fire-and-forget close request for one evaluator.
#[derive(Debug, Clone, PartialEq)]
pub struct CloseEvaluator {
    pub evaluator_id: Option<i64>,
}

impl CloseEvaluator {
    pub open spec fn fields(self) -> Seq<(Seq<char>, ValueV)> {
        opt_field("evaluatorId"@, opt_int(self.evaluator_id))
    }

    pub fn to_value(&self) -> (r: Value)
        ensures
            r@ == ValueV::Dict(self.fields()),
    {
        let mut f: Vec<(String, Value)> = Vec::new();
        push_opt_int_field(&mut f, "evaluatorId", &self.evaluator_id);
        assert(pairs_view(f@) =~= self.fields());
        Value::Dict(f)
    }
}

/// The request to evaluate one module, optionally a single expression.
#[derive(Debug, Clone, PartialEq)]
pub struct Evaluate {
    pub request_id: i64,
    pub evaluator_id: i64,
    pub module_uri: String,
    pub module_text: Option<String>,
    pub expr: Option<String>,
}

impl Evaluate {
    pub open spec fn fields(self) -> Seq<(Seq<char>, ValueV)> {
        seq![
            ("requestId"@, ValueV::Int(self.request_id as int)),
            ("evaluatorId"@, ValueV::Int(self.evaluator_id as int)),
            ("moduleUri"@, ValueV::Str(self.module_uri@)),
        ] + opt_field("moduleText"@, opt_str(self.module_text)) + opt_field(
            "expr"@,
            opt_str(self.expr),
        )
    }

    pub fn to_value(&self) -> (r: Value)
        ensures
            r@ == ValueV::Dict(self.fields()),
    {
        let mut f: Vec<(String, Value)> = Vec::new();
        push_int_field(&mut f, "requestId", self.request_id);
        push_int_field(&mut f, "evaluatorId", self.evaluator_id);
        push_str_field(&mut f, "moduleUri", &self.module_uri);
        push_opt_str_field(&mut f, "moduleText", &self.module_text);
        push_opt_str_field(&mut f, "expr", &self.expr);
        assert(pairs_view(f@) =~= self.fields());
        Value::Dict(f)
    }
}

/// The client's answer to a resource-read callback: contents or an error,
/// never both interpreted together.
#[derive(Debug, Clone, PartialEq)]
pub struct ReadResourceResponse {
    pub request_id: i64,
    pub evaluator_id: i64,
    pub contents: Option<Vec<u8>>,
    pub error: Option<String>,
}

impl ReadResourceResponse {
    pub open spec fn fields(self) -> Seq<(Seq<char>, ValueV)> {
        seq![
            ("requestId"@, ValueV::Int(self.request_id as int)),
            ("evaluatorId"@, ValueV::Int(self.evaluator_id as int)),
        ] + opt_field("contents"@, opt_bin(self.contents)) + opt_field(
            "error"@,
            opt_str(self.error),
        )
    }

    pub fn to_value(&self) -> (r: Value)
        ensures
            r@ == ValueV::Dict(self.fields()),
    {
        let mut f: Vec<(String, Value)> = Vec::new();
        push_int_field(&mut f, "requestId", self.request_id);
        push_int_field(&mut f, "evaluatorId", self.evaluator_id);
        push_opt_bin_field(&mut f, "contents", &self.contents);
        push_opt_str_field(&mut f, "error", &self.error);
        assert(pairs_view(f@) =~= self.fields());
        Value::Dict(f)
    }
}

impl ReadResourceResponse {
    /// The reply for one read-resource callback: the contents on
    /// success, the engine-visible error text on failure, never both.
    pub fn for_result(request_id: i64, evaluator_id: i64, result: Result<Vec<u8>, String>) -> (r:
        ReadResourceResponse)
        ensures
            r.request_id == request_id,
            r.evaluator_id == evaluator_id,
            match result {
                Ok(c) => r.contents == Some(c) && r.error is None,
                Err(e) => r.contents is None && r.error == Some(e),
            },
    {
        match result {
            Ok(c) => ReadResourceResponse {
                request_id,
                evaluator_id,
                contents: Some(c),
                error: None,
            },
            Err(e) => ReadResourceResponse {
                request_id,
                evaluator_id,
                contents: None,
                error: Some(e),
            },
        }
    }
}

/// The client's answer to a module-read callback.
#[derive(Debug, Clone, PartialEq)]
pub struct ReadModuleResponse {
    pub request_id: i64,
    pub evaluator_id: i64,
    pub contents: Option<String>,
    pub error: Option<String>,
}

impl ReadModuleResponse {
    pub open spec fn fields(self) -> Seq<(Seq<char>, ValueV)> {
        seq![
            ("requestId"@, ValueV::Int(self.request_id as int)),
            ("evaluatorId"@, ValueV::Int(self.evaluator_id as int)),
        ] + opt_field("contents"@, opt_str(self.contents)) + opt_field(
            "error"@,
            opt_str(self.error),
        )
    }

    pub fn to_value(&self) -> (r: Value)
        ensures
            r@ == ValueV::Dict(self.fields()),
    {
        let mut f: Vec<(String, Value)> = Vec::new();
        push_int_field(&mut f, "requestId", self.request_id);
        push_int_field(&mut f, "evaluatorId", self.evaluator_id);
        push_opt_str_field(&mut f, "contents", &self.contents);
        push_opt_str_field(&mut f, "error", &self.error);
        assert(pairs_view(f@) =~= self.fields());
        Value::Dict(f)
    }
}

impl ReadModuleResponse {
    /// The reply for one module-read callback: the module text on
    /// success, the engine-visible error text on failure, never both.
    pub fn for_result(request_id: i64, evaluator_id: i64, result: Result<String, String>) -> (r:
        ReadModuleResponse)
        ensures
            r.request_id == request_id,
            r.evaluator_id == evaluator_id,
            match result {
                Ok(c) => r.contents == Some(c) && r.error is None,
                Err(e) => r.contents is None && r.error == Some(e),
            },
    {
        match result {
            Ok(c) => ReadModuleResponse { request_id, evaluator_id, contents: Some(c), error: None },
            Err(e) => ReadModuleResponse {
                request_id,
                evaluator_id,
                contents: None,
                error: Some(e),
            },
        }
    }
}

/// The client's answer to a list-resources callback.
#[derive(Debug, Clone, PartialEq)]
pub struct ListResourceResponse {
    pub request_id: i64,
    pub evaluator_id: i64,
    pub path_elements: Option<Vec<PathElement>>,
    pub error: Option<String>,
}

impl ListResourceResponse {
    pub open spec fn fields(self) -> Seq<(Seq<char>, ValueV)> {
        seq![
            ("requestId"@, ValueV::Int(self.request_id as int)),
            ("evaluatorId"@, ValueV::Int(self.evaluator_id as int)),
        ] + opt_field(
            "pathElements"@,
            match self.path_elements {
                None => None,
                Some(v) => Some(ValueV::Arr(path_elements_seq(v@))),
            },
        ) + opt_field("error"@, opt_str(self.error))
    }

    pub fn to_value(&self) -> (r: Value)
        ensures
            r@ == ValueV::Dict(self.fields()),
    {
        let mut f: Vec<(String, Value)> = Vec::new();
        push_int_field(&mut f, "requestId", self.request_id);
        push_int_field(&mut f, "evaluatorId", self.evaluator_id);
        if let Some(v) = &self.path_elements {
            push_value_field(&mut f, "pathElements", path_elements_value(v));
        }
        push_opt_str_field(&mut f, "error", &self.error);
        assert(pairs_view(f@) =~= self.fields());
        Value::Dict(f)
    }
}

impl ListResourceResponse {
    /// The reply for one list-resources callback: the listing on
    /// success, the engine-visible error text on failure, never both.
    pub fn for_result(
        request_id: i64,
        evaluator_id: i64,
        result: Result<Vec<PathElement>, String>,
    ) -> (r: ListResourceResponse)
        ensures
            r.request_id == request_id,
            r.evaluator_id == evaluator_id,
            match result {
                Ok(p) => r.path_elements == Some(p) && r.error is None,
                Err(e) => r.path_elements is None && r.error == Some(e),
            },
    {
        match result {
            Ok(p) => ListResourceResponse {
                request_id,
                evaluator_id,
                path_elements: Some(p),
                error: None,
            },
            Err(e) => ListResourceResponse {
                request_id,
                evaluator_id,
                path_elements: None,
                error: Some(e),
            },
        }
    }
}

/// The client's answer to a list-modules callback.
#[derive(Debug, Clone, PartialEq)]
pub struct ListModulesResponse {
    pub request_id: i64,
    pub evaluator_id: i64,
    pub path_elements: Option<Vec<PathElement>>,
    pub error: Option<String>,
}

impl ListModulesResponse {
    pub open spec fn fields(self) -> Seq<(Seq<char>, ValueV)> {
        seq![
            ("requestId"@, ValueV::Int(self.request_id as int)),
            ("evaluatorId"@, ValueV::Int(self.evaluator_id as int)),
        ] + opt_field(
            "pathElements"@,
            match self.path_elements {
                None => None,
                Some(v) => Some(ValueV::Arr(path_elements_seq(v@))),
            },
        ) + opt_field("error"@, opt_str(self.error))
    }

    pub fn to_value(&self) -> (r: Value)
        ensures
            r@ == ValueV::Dict(self.fields()),
    {
        let mut f: Vec<(String, Value)> = Vec::new();
        push_int_field(&mut f, "requestId", self.request_id);
        push_int_field(&mut f, "evaluatorId", self.evaluator_id);
        if let Some(v) = &self.path_elements {
            push_value_field(&mut f, "pathElements", path_elements_value(v));
        }
        push_opt_str_field(&mut f, "error", &self.error);
        assert(pairs_view(f@) =~= self.fields());
        Value::Dict(f)
    }
}

impl ListModulesResponse {
    /// The reply for one list-modules callback: the listing on success,
    /// the engine-visible error text on failure, never both.
    pub fn for_result(
        request_id: i64,
        evaluator_id: i64,
        result: Result<Vec<PathElement>, String>,
    ) -> (r: ListModulesResponse)
        ensures
            r.request_id == request_id,
            r.evaluator_id == evaluator_id,
            match result {
                Ok(p) => r.path_elements == Some(p) && r.error is None,
                Err(e) => r.path_elements is None && r.error == Some(e),
            },
    {
        match result {
            Ok(p) => ListModulesResponse {
                request_id,
                evaluator_id,
                path_elements: Some(p),
                error: None,
            },
            Err(e) => ListModulesResponse {
                request_id,
                evaluator_id,
                path_elements: None,
                error: Some(e),
            },
        }
    }
}

/// Every message the client can put on the wire.
#[derive(Debug, PartialEq)]
pub enum OutgoingMessage {
    CreateEvaluator(CreateEvaluator),
    CloseEvaluator(CloseEvaluator),
    Evaluate(Evaluate),
    ReadResourceResponse(ReadResourceResponse),
    ReadModuleResponse(ReadModuleResponse),
    ListResourceResponse(ListResourceResponse),
    ListModulesResponse(ListModulesResponse),
}

impl OutgoingMessage {
    /// The field map this message carries.
    pub open spec fn fields(self) -> Seq<(Seq<char>, ValueV)> {
        match self {
            OutgoingMessage::CreateEvaluator(m) => m.fields(),
            OutgoingMessage::CloseEvaluator(m) => m.fields(),
            OutgoingMessage::Evaluate(m) => m.fields(),
            OutgoingMessage::ReadResourceResponse(m) => m.fields(),
            OutgoingMessage::ReadModuleResponse(m) => m.fields(),
            OutgoingMessage::ListResourceResponse(m) => m.fields(),
            OutgoingMessage::ListModulesResponse(m) => m.fields(),
        }
    }

    /// The wire code of this message.
    pub open spec fn spec_code(self) -> u8 {
        match self {
            OutgoingMessage::CreateEvaluator(_) => CODE_NEW_EVALUATOR,
            OutgoingMessage::CloseEvaluator(_) => CODE_CLOSE_EVALUATOR,
            OutgoingMessage::Evaluate(_) => CODE_EVALUATE,
            OutgoingMessage::ReadResourceResponse(_) => CODE_EVALUATE_READ_RESPONSE,
            OutgoingMessage::ReadModuleResponse(_) => CODE_EVALUATE_READ_MODULE_RESPONSE,
            OutgoingMessage::ListResourceResponse(_) => CODE_LIST_RESOURCES_RESPONSE,
            OutgoingMessage::ListModulesResponse(_) => CODE_LIST_MODULES_RESPONSE,
        }
    }

    /// The code of the response this message expects, if any.
    pub open spec fn spec_response_code(self) -> Option<u8> {
        match self {
            OutgoingMessage::CreateEvaluator(_) => Some(CODE_NEW_EVALUATOR_RESPONSE),
            OutgoingMessage::Evaluate(_) => Some(CODE_EVALUATE_RESPONSE),
            _ => None,
        }
    }

    /// The machine limits the wire format imposes: every string and every
    /// collection in the frame fits a 32-bit length.
    pub open spec fn wf(self) -> bool {
        valid(frame_value(self.spec_code(), self.fields()))
    }
}

/// A whole frame as one value: `[code, fields]`.
pub open spec fn frame_value(code: u8, fields: Seq<(Seq<char>, ValueV)>) -> ValueV {
    ValueV::Arr(seq![ValueV::Int(code as int), ValueV::Dict(fields)])
}

/// The exact bytes of a frame.
pub open spec fn frame_bytes(code: u8, fields: Seq<(Seq<char>, ValueV)>) -> Seq<u8> {
    enc_value(frame_value(code, fields))
}

/// The wire code of `t`, and the code of the response it expects.
pub fn get_code(t: &OutgoingMessage) -> (r: (u8, Option<u8>))
    ensures
        r.0 == t.spec_code(),
        r.1 == t.spec_response_code(),
{
    match t {
        OutgoingMessage::CreateEvaluator(_) => (
            CODE_NEW_EVALUATOR,
            Some(CODE_NEW_EVALUATOR_RESPONSE),
        ),
        OutgoingMessage::CloseEvaluator(_) => (CODE_CLOSE_EVALUATOR, None),
        OutgoingMessage::Evaluate(_) => (CODE_EVALUATE, Some(CODE_EVALUATE_RESPONSE)),
        OutgoingMessage::ReadResourceResponse(_) => (CODE_EVALUATE_READ_RESPONSE, None),
        OutgoingMessage::ReadModuleResponse(_) => (CODE_EVALUATE_READ_MODULE_RESPONSE, None),
        OutgoingMessage::ListResourceResponse(_) => (CODE_LIST_RESOURCES_RESPONSE, None),
        OutgoingMessage::ListModulesResponse(_) => (CODE_LIST_MODULES_RESPONSE, None),
    }
}

/// Packs one message as its frame bytes `[code, fields]`.
pub fn pack_message(msg: OutgoingMessage) -> (r: Result<Vec<u8>, &'static str>)
    requires
        msg.wf(),
    ensures
        r matches Ok(b) && b@ == frame_bytes(msg.spec_code(), msg.fields()),
{
    let (code, _expected) = get_code(&msg);
    let dict = match &msg {
        OutgoingMessage::CreateEvaluator(m) => m.to_value(),
        OutgoingMessage::CloseEvaluator(m) => m.to_value(),
        OutgoingMessage::Evaluate(m) => m.to_value(),
        OutgoingMessage::ReadResourceResponse(m) => m.to_value(),
        OutgoingMessage::ReadModuleResponse(m) => m.to_value(),
        OutgoingMessage::ListResourceResponse(m) => m.to_value(),
        OutgoingMessage::ListModulesResponse(m) => m.to_value(),
    };
    let mut parts: Vec<Value> = Vec::new();
    parts.push(Value::Int(code as i64));
    parts.push(dict);
    let frame = Value::Arr(parts);
    proof {
        lemma_seq_view(parts@);
        assert(seq_view(parts@) =~= seq![ValueV::Int(code as int), ValueV::Dict(msg.fields())]);
        assert(frame@ == frame_value(msg.spec_code(), msg.fields()));
    }
    Ok(encode(&frame))
}

/// Packs one message after checking the wire format's limits at run
/// time: `None` exactly where the frame is not well-formed, the packed
/// frame bytes otherwise.
pub fn pack_message_checked(msg: OutgoingMessage) -> (r: Option<Vec<u8>>)
    ensures
        match r {
            Some(b) => msg.wf() && b@ == frame_bytes(msg.spec_code(), msg.fields()),
            None => !msg.wf(),
        },
{
    let (code, _expected) = get_code(&msg);
    let dict = match &msg {
        OutgoingMessage::CreateEvaluator(m) => m.to_value(),
        OutgoingMessage::CloseEvaluator(m) => m.to_value(),
        OutgoingMessage::Evaluate(m) => m.to_value(),
        OutgoingMessage::ReadResourceResponse(m) => m.to_value(),
        OutgoingMessage::ReadModuleResponse(m) => m.to_value(),
        OutgoingMessage::ListResourceResponse(m) => m.to_value(),
        OutgoingMessage::ListModulesResponse(m) => m.to_value(),
    };
    let mut parts: Vec<Value> = Vec::new();
    parts.push(Value::Int(code as i64));
    parts.push(dict);
    let frame = Value::Arr(parts);
    proof {
        lemma_seq_view(parts@);
        assert(seq_view(parts@) =~= seq![ValueV::Int(code as int), ValueV::Dict(msg.fields())]);
        assert(frame@ == frame_value(msg.spec_code(), msg.fields()));
    }
    if !crate::msgpack::check_valid(&frame) {
        return None;
    }
    Some(encode(&frame))
}

/// Round trip for whole frames: decoding the bytes a packed message
/// carries yields exactly the frame `[code, fields]` that was encoded —
/// the field map comes back equal to the one encoded, with absent optional
/// fields staying absent rather than turning into nulls.
pub proof fn lemma_frame_round_trip(code: u8, fields: Seq<(Seq<char>, ValueV)>)
    requires
        valid(frame_value(code, fields)),
    ensures
        dec_full(frame_bytes(code, fields)) == Some(frame_value(code, fields)),
{
    let v = frame_value(code, fields);
    let b = frame_bytes(code, fields);
    assert(b.subrange(0, b.len() as int) =~= enc_value(v));
    lemma_dec_enc(b, 0, v);
    assert(dec_value(b, 0) == Some((v, b.len() as int)));
}

/// Round trip for every catalogue message: the frame bytes of a
/// well-formed message decode back to the frame `[code, fields]` holding
/// exactly the message's field map.
pub proof fn lemma_pack_round_trip(msg: OutgoingMessage)
    requires
        msg.wf(),
    ensures
        dec_full(frame_bytes(msg.spec_code(), msg.fields())) == Some(
            frame_value(msg.spec_code(), msg.fields()),
        ),
{
    lemma_frame_round_trip(msg.spec_code(), msg.fields());
}

} // verus!
