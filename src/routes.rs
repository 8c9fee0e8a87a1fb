//! Which HTTP request paths the server upgrades to the relay protocol, which
//! one serves random bytes, and which are not found.

use vstd::prelude::*;
use vstd::string::StringSliceAdditionalSpecFns;

verus! {

/// What the server does with an HTTP request.
#[derive(Debug, Clone, Copy, PartialEq, Eq, Structural)]
pub enum Route {
    /// Upgrade the connection to the relay protocol.
    Upgrade,
    /// Answer with 32 freshly generated random bytes.
    RandomBytes,
    /// Answer with a not-found response.
    NotFound,
}

/// Whether `s` begins with `prefix`.
pub open spec fn has_prefix(s: Seq<u8>, prefix: Seq<u8>) -> bool {
    prefix.len() <= s.len() && s.subrange(0, prefix.len() as int) == prefix
}

/// The route of a request path: `/ws` and every path under `/ws/` upgrade,
/// `/csprng` serves random bytes, anything else is not found.
pub open spec fn route_of(path: Seq<u8>) -> Route {
    if path == "/ws".spec_bytes() || has_prefix(path, "/ws/".spec_bytes()) {
        Route::Upgrade
    } else if path == "/csprng".spec_bytes() {
        Route::RandomBytes
    } else {
        Route::NotFound
    }
}

fn starts_with(s: &[u8], prefix: &[u8]) -> (r: bool)
    ensures
        r == has_prefix(s@, prefix@),
{
    if prefix.len() > s.len() {
        return false;
    }
    let mut i: usize = 0;
    while i < prefix.len()
        invariant
            prefix@.len() <= s@.len(),
            0 <= i <= prefix@.len(),
            forall|k: int| 0 <= k < i ==> s@[k] == prefix@[k],
        decreases prefix@.len() - i,
    {
        if s[i] != prefix[i] {
            assert(s@.subrange(0, prefix@.len() as int)[i as int] != prefix@[i as int]);
            return false;
        }
        i = i + 1;
    }
    assert(s@.subrange(0, prefix@.len() as int) =~= prefix@);
    true
}

fn same(s: &[u8], t: &[u8]) -> (r: bool)
    ensures
        r == (s@ == t@),
{
    let r = s.len() == t.len() && starts_with(s, t);
    proof {
        if s@.len() == t@.len() {
            assert(s@.subrange(0, t@.len() as int) =~= s@);
        }
    }
    r
}

/// The route of the request for `resource`.
pub fn route(resource: &str) -> (r: Route)
    ensures
        r == route_of(resource.spec_bytes()),
{
    let path = resource.as_bytes();
    if same(path, "/ws".as_bytes()) || starts_with(path, "/ws/".as_bytes()) {
        Route::Upgrade
    } else if same(path, "/csprng".as_bytes()) {
        Route::RandomBytes
    } else {
        Route::NotFound
    }
}

} // verus!
