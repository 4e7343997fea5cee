//! Identity values for deployments that run without authentication.

use vstd::prelude::*;
use vstd::std_specs::convert::TryFromSpecImpl;
use vstd::string::*;

verus! {

/// The text that names the default namespace.
pub open spec fn default_namespace_text() -> Seq<char> {
    "default"@
}

/// The message that rejects any other text as a namespace.
pub open spec fn namespace_failure_text() -> Seq<char> {
    "Failed to parse empty namespace"@
}

/// The authorisation context of a deployment without authentication.
#[derive(Clone, Debug, PartialEq, Eq, Hash)]
pub struct EmptyAuthCtx();

impl Default for EmptyAuthCtx {
    fn default() -> (r: Self)
        ensures
            r == EmptyAuthCtx(),
    {
        EmptyAuthCtx()
    }
}

impl EmptyAuthCtx {
    /// The display form of the context.
    pub fn to_string(&self) -> (r: String)
        ensures
            r@ == "EmptyAuthCtx"@,
    {
        String::from_str("EmptyAuthCtx")
    }

    /// The key and value pairs that the context carries: none.
    pub fn into_iter(self) -> (r: Vec<(String, String)>)
        ensures
            r@.len() == 0,
    {
        Vec::new()
    }
}

/// The single namespace of a deployment without accounts.
#[derive(Clone, Debug, PartialEq, Eq, Hash)]
pub struct DefaultNamespace();

impl Default for DefaultNamespace {
    fn default() -> (r: Self)
        ensures
            r == DefaultNamespace(),
    {
        DefaultNamespace()
    }
}

impl DefaultNamespace {
    /// The display form of the namespace, which `try_from` reads back.
    pub fn to_string(&self) -> (r: String)
        ensures
            r@ == default_namespace_text(),
    {
        String::from_str("default")
    }
}

impl TryFromSpecImpl<String> for DefaultNamespace {
    open spec fn obeys_try_from_spec() -> bool {
        false
    }

    open spec fn try_from_spec(v: String) -> Result<Self, String> {
        arbitrary()
    }
}

impl TryFrom<String> for DefaultNamespace {
    type Error = String;

    /// Accepts exactly the text `default`.
    fn try_from(value: String) -> (r: Result<Self, String>)
        ensures
            r is Ok <==> value@ == default_namespace_text(),
            r matches Err(message) ==> message@ == namespace_failure_text(),
    {
        let expected = String::from_str("default");
        if value == expected {
            Ok(DefaultNamespace::default())
        } else {
            Err(String::from_str("Failed to parse empty namespace"))
        }
    }
}

} // verus!
