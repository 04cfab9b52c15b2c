//! The two fixed texts of the service: its greeting and its answer to an
//! address that it does not serve.

use vstd::prelude::*;
use vstd::string::StringExecFns;

verus! {

/// The greeting served at the root address.
pub fn index() -> (result: &'static str)
    ensures
        result@ == "trunk-web-api"@,
{
    "trunk-web-api"
}

/// The answer to a request for an address that nothing is served at: the
/// address, in single quotes, after the words "could not find".
pub fn not_found(uri: &str) -> (result: String)
    ensures
        result@ == "could not find '"@ + uri@ + "'"@,
{
    let mut text = "could not find '".to_owned();
    text.append(uri);
    text.append("'");
    text
}

} // verus!
