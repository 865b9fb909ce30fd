//! The identity resolver's cache: a single optional username, read before
//! any fetch, written only by a successful fetch. A driver holds it behind
//! a lock and performs the fetch itself.

use vstd::prelude::*;
use crate::engine::XError;

verus! {

/// The identity-fetch response payload.
#[derive(Debug)]
pub struct MeData {
    /// The account's opaque identifier.
    pub id: String,
    /// The account's display name.
    pub name: String,
    /// The account's handle, used to build shareable URLs.
    pub username: String,
}

/// The identity-fetch response envelope.
#[derive(Debug)]
pub struct MeResponse {
    /// The payload.
    pub data: MeData,
}

/// A single-slot cache of the authenticated account's username.
pub struct IdentityCache {
    cached: Option<String>,
}

impl IdentityCache {
    /// The cached username, if any.
    pub closed spec fn view(&self) -> Option<Seq<char>> {
        match self.cached {
            Some(u) => Some(u@),
            None => None,
        }
    }

    /// An empty cache.
    pub fn new() -> (r: IdentityCache)
        ensures
            r@ is None,
    {
        IdentityCache { cached: None }
    }

    /// Read the cache: a hit means no fetch is owed.
    pub fn lookup(&self) -> (r: Option<String>)
        ensures
            match r {
                Some(u) => self@ == Some(u@),
                None => self@ is None,
            },
    {
        match &self.cached {
            Some(u) => Some(u.clone()),
            None => None,
        }
    }

    /// Store a freshly fetched username.
    pub fn record(&mut self, username: &str)
        ensures
            final(self)@ == Some(username@),
    {
        self.cached = Some(username.to_owned());
    }

    /// Apply a fetch's outcome: success stores and returns the username,
    /// failure returns the error and leaves the cache untouched, so the
    /// next request retries the fetch.
    pub fn resolve_fetched(&mut self, fetched: Result<MeData, XError>) -> (r: Result<
        String,
        XError,
    >)
        ensures
            match fetched {
                Ok(me) => final(self)@ == Some(me.username@) && (r matches Ok(u) && u@
                    == me.username@),
                Err(e) => final(self)@ == old(self)@ && (r matches Err(e2) && e2 == e),
            },
    {
        match fetched {
            Ok(me) => {
                self.cached = Some(me.username.clone());
                Ok(me.username)
            },
            Err(e) => Err(e),
        }
    }
}

} // verus!
