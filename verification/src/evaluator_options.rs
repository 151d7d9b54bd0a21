//! The immutable option set an evaluator is created from.
//!
//! The protocol core takes no ambient state: the caller supplies the
//! process environment snapshot and the cache directory once, at
//! construction, and the defaults for everything else are fixed here.
use vstd::prelude::*;

verus! {

use crate::logger::Logger;
use crate::outgoing::{ModuleReader, ResourceReader};
use vstd::string::StringExecFns;

/// The views of a list of strings.
pub open spec fn strs_view(s: Seq<String>) -> Seq<Seq<char>> {
    Seq::new(s.len(), |i: int| s[i]@)
}

/// The URI scheme prefixes an evaluator may resolve resources from
/// unless the caller narrows them.
pub open spec fn default_allowed_resources() -> Seq<Seq<char>> {
    seq![
        "http:"@,
        "https:"@,
        "file:"@,
        "env:"@,
        "prop:"@,
        "modulepath:"@,
        "package:"@,
        "projectpackage:"@,
    ]
}

/// The URI scheme prefixes an evaluator may load modules from unless
/// the caller narrows them.
pub open spec fn default_allowed_modules() -> Seq<Seq<char>> {
    seq![
        "pkl:"@,
        "repl:"@,
        "file:"@,
        "http:"@,
        "https:"@,
        "modulepath:"@,
        "package:"@,
        "projectpackage:"@,
    ]
}

/// A remote dependency pinned by checksums.
#[derive(Debug, Clone, PartialEq)]
pub struct ProjectRemoteDependency {
    pub package_uri: String,
    pub checksums: String,
}

/// A local dependency resolved through a project file.
#[derive(Debug, PartialEq)]
pub struct ProjectLocalDependency {
    pub package_uri: String,
    pub project_file_uri: String,
    pub dependencies: ProjectDependencies,
}

/// The declared dependency set of a project.
#[derive(Debug, PartialEq)]
pub struct ProjectDependencies {
    pub local_dependencies: Vec<(String, ProjectLocalDependency)>,
    pub remote_dependencies: Vec<(String, ProjectRemoteDependency)>,
}

impl ProjectDependencies {
    /// The empty dependency set.
    pub fn none() -> (r: ProjectDependencies)
        ensures
            r.local_dependencies@.len() == 0,
            r.remote_dependencies@.len() == 0,
    {
        ProjectDependencies { local_dependencies: Vec::new(), remote_dependencies: Vec::new() }
    }
}

/// Everything an evaluator is configured with; immutable once the
/// evaluator exists.
#[derive(Debug, PartialEq)]
pub struct EvaluatorOptions {
    pub properties: Vec<(String, String)>,
    pub env: Vec<(String, String)>,
    pub module_paths: Vec<String>,
    pub logger: Logger,
    pub output_format: String,
    pub allowed_modules: Vec<String>,
    pub allowed_resources: Vec<String>,
    pub resource_readers: Vec<ResourceReader>,
    pub module_readers: Vec<ModuleReader>,
    pub cache_dir: String,
    pub root_dir: String,
    pub project_dir: String,
    pub declared_project_dependency: ProjectDependencies,
}

fn default_modules_vec() -> (r: Vec<String>)
    ensures
        strs_view(r@) == default_allowed_modules(),
{
    let mut v: Vec<String> = Vec::new();
    v.push(String::from_str("pkl:"));
    v.push(String::from_str("repl:"));
    v.push(String::from_str("file:"));
    v.push(String::from_str("http:"));
    v.push(String::from_str("https:"));
    v.push(String::from_str("modulepath:"));
    v.push(String::from_str("package:"));
    v.push(String::from_str("projectpackage:"));
    assert(strs_view(v@) =~= default_allowed_modules());
    v
}

fn default_resources_vec() -> (r: Vec<String>)
    ensures
        strs_view(r@) == default_allowed_resources(),
{
    let mut v: Vec<String> = Vec::new();
    v.push(String::from_str("http:"));
    v.push(String::from_str("https:"));
    v.push(String::from_str("file:"));
    v.push(String::from_str("env:"));
    v.push(String::from_str("prop:"));
    v.push(String::from_str("modulepath:"));
    v.push(String::from_str("package:"));
    v.push(String::from_str("projectpackage:"));
    assert(strs_view(v@) =~= default_allowed_resources());
    v
}

impl EvaluatorOptions {
    /// The default option set, seeded with the caller's environment
    /// snapshot and cache directory; everything else empty or the fixed
    /// default lists.
    pub fn with_defaults(env: Vec<(String, String)>, cache_dir: String) -> (r: EvaluatorOptions)
        ensures
            r.properties@.len() == 0,
            r.env == env,
            r.module_paths@.len() == 0,
            r.logger == Logger::StderrLogger,
            r.output_format@.len() == 0,
            strs_view(r.allowed_modules@) == default_allowed_modules(),
            strs_view(r.allowed_resources@) == default_allowed_resources(),
            r.resource_readers@.len() == 0,
            r.module_readers@.len() == 0,
            r.cache_dir == cache_dir,
            r.root_dir@.len() == 0,
            r.project_dir@.len() == 0,
            r.declared_project_dependency.local_dependencies@.len() == 0,
            r.declared_project_dependency.remote_dependencies@.len() == 0,
    {
        EvaluatorOptions {
            properties: Vec::new(),
            env,
            module_paths: Vec::new(),
            logger: Logger::StderrLogger,
            output_format: String::new(),
            allowed_modules: default_modules_vec(),
            allowed_resources: default_resources_vec(),
            resource_readers: Vec::new(),
            module_readers: Vec::new(),
            cache_dir,
            root_dir: String::new(),
            project_dir: String::new(),
            declared_project_dependency: ProjectDependencies::none(),
        }
    }
}

} // verus!
