//! The YAML value carried as a post's front matter.
//!
//! The library never looks inside the value; it only needs to know whether
//! a detected front-matter block parses, since a block that does not is a
//! fatal authoring error for that document.

use vstd::prelude::*;

verus! {

#[verifier::external_type_specification]
#[verifier::external_body]
pub struct ExValue(serde_yaml::Value);

/// Whether a text parses as YAML; decided by the parser alone, so it is a
/// function of the text.
pub uninterp spec fn yaml_parses(s: Seq<char>) -> bool;

/// Relies on serde_yaml::from_str::<Value>: parses a text into a generic
/// YAML value, returning Err exactly when the text does not parse as one
/// YAML document; which texts do is decided by the parser alone.
#[verifier::external_body]
pub(crate) fn parse_yaml(s: &str) -> (r: Option<serde_yaml::Value>)
    ensures
        r is Some <==> yaml_parses(s@),
{
    serde_yaml::from_str::<serde_yaml::Value>(s).ok()
}

} // verus!
