//! URIs, as the HTTP client reads them.

use vstd::prelude::*;

verus! {

/// Whether `uri` parses as a `hyper::Uri`. The outcome depends on the
/// characters of `uri` and on nothing else.
pub uninterp spec fn uri_well_formed(uri: Seq<char>) -> bool;

/// Parses `uri` with `hyper::Uri`'s `FromStr` and tells whether that
/// succeeded. Nothing is claimed about which texts parse.
#[verifier::external_body]
pub(crate) fn uri_parses(uri: &str) -> (ok: bool)
    ensures
        ok == uri_well_formed(uri@),
{
    uri.parse::<hyper::Uri>().is_ok()
}

} // verus!
