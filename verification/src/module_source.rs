//! What an evaluation is pointed at: a URI, with the module text inline
//! where the caller already holds it.
use vstd::prelude::*;

verus! {

use vstd::string::StringExecFns;

/// A source for evaluation. With no inline contents the engine resolves
/// the URI itself, through a matching module reader where one is
/// registered.
#[derive(Debug, Clone, PartialEq)]
pub struct ModuleSource {
    uri: String,
    contents: Option<String>,
}

impl ModuleSource {
    pub closed spec fn spec_uri(self) -> Seq<char> {
        self.uri@
    }

    pub closed spec fn spec_contents(self) -> Option<String> {
        self.contents
    }

    /// A source from an already-formed URI string and optional text.
    pub fn new(uri: String, contents: Option<String>) -> (r: ModuleSource)
        ensures
            r.spec_uri() == uri@,
            r.spec_contents() == contents,
    {
        ModuleSource { uri, contents }
    }

    /// The URI of this source.
    pub fn uri(&self) -> (r: &String)
        ensures
            r@ == self.spec_uri(),
    {
        &self.uri
    }

    /// The inline text of this source, if any.
    pub fn contents(&self) -> (r: &Option<String>)
        ensures
            r == self.spec_contents(),
    {
        &self.contents
    }
}

/// A source holding the given text, under the fixed repl URI.
pub fn text_source(text: String) -> (r: ModuleSource)
    ensures
        r.spec_uri() == "repl:/"@,
        r.spec_contents() matches Some(t) && t@ == text@,
{
    ModuleSource { uri: String::from_str("repl:/"), contents: Some(text) }
}

} // verus!
