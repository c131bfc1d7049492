//! The shared client handle: base URL and credential, immutable after
//! construction and holding no per-call state.

use vstd::prelude::*;

verus! {

/// Configuration shared by every call: the base URL that request paths are
/// appended to, and the bearer credential the transport presents. A handle
/// holds no mutable per-call state, so any number of in-flight calls may
/// share one.
#[derive(Clone)]
pub struct Client {
    pub base_url: Vec<u8>,
    pub token: Vec<u8>,
}

impl Client {
    pub fn new(base_url: Vec<u8>, token: Vec<u8>) -> (c: Client)
        ensures
            c.base_url == base_url,
            c.token == token,
    {
        Client { base_url, token }
    }

    /// The absolute URL for a request path: base URL and path, joined.
    pub fn full_url(&self, path: &[u8]) -> (r: Vec<u8>)
        ensures
            r@ == self.base_url@ + path@,
    {
        let mut r: Vec<u8> = Vec::new();
        r.extend_from_slice(self.base_url.as_slice());
        r.extend_from_slice(path);
        proof {
            assert(r@ =~= self.base_url@ + path@);
        }
        r
    }
}

/// A fresh byte vector with the same contents.
pub fn copy_bytes(v: &[u8]) -> (r: Vec<u8>)
    ensures
        r@ == v@,
{
    let mut r: Vec<u8> = Vec::new();
    r.extend_from_slice(v);
    proof {
        assert(r@ =~= v@);
    }
    r
}

} // verus!
