//! Naming of shared resources in the coordination store.
//!
//! Every shared resource lives under a short prefix followed by a colon, so
//! that services, temporary values and collections cannot collide.

use vstd::prelude::*;
use vstd::string::StringExecFns;

verus! {

/// A name under `prefix`, written `prefix:name`.
pub open spec fn prefixed_key(prefix: Seq<char>, name: Seq<char>) -> Seq<char> {
    prefix + seq![':'] + name
}

/// Builds `prefix:name`.
fn build_key(prefix: &str, name: &str) -> (r: String)
    ensures
        r@ == prefixed_key(prefix@, name@),
{
    proof {
        reveal_strlit(":");
    }
    let mut out = String::from_str(prefix);
    out.append(":");
    out.append(name);
    assert(out@ =~= prefixed_key(prefix@, name@));
    out
}

/// The bus channel and registry name of a service.
pub fn service_key(name: &str) -> (r: String)
    ensures
        r@ == prefixed_key("service"@, name@),
{
    build_key("service", name)
}

/// The key of a short-lived resource.
pub fn temporary_resource_key(name: &str) -> (r: String)
    ensures
        r@ == prefixed_key("temp"@, name@),
{
    build_key("temp", name)
}

/// The key of a shared collection.
pub fn collection_key(name: &str) -> (r: String)
    ensures
        r@ == prefixed_key("collection"@, name@),
{
    build_key("collection", name)
}

} // verus!
