//! The desktop user, detected once and then served from memory.
use vstd::prelude::*;

verus! {

/// The desktop session's user.
#[derive(Debug, PartialEq, Eq)]
pub struct CachedUserEnvironment {
    pub username: String,
}

impl Clone for CachedUserEnvironment {
    fn clone(&self) -> (r: CachedUserEnvironment)
        ensures
            r == *self,
    {
        CachedUserEnvironment { username: self.username.clone() }
    }
}

/// The detected user, if any.
#[derive(Debug)]
pub struct UserEnvCache {
    pub user: Option<CachedUserEnvironment>,
}

impl UserEnvCache {
    /// Nothing detected yet.
    pub fn new() -> (c: UserEnvCache)
        ensures
            c.user.is_none(),
    {
        UserEnvCache { user: None }
    }
}

/// The detected user.
pub fn get_cached_user_environment(cache: &UserEnvCache) -> (r: Option<CachedUserEnvironment>)
    ensures
        r == cache.user,
{
    match &cache.user {
        Some(u) => Some(u.clone()),
        None => None,
    }
}

/// Stores the result of a detection, which found `detected` (or no one).
pub fn initialize_user_environment_cache(cache: &mut UserEnvCache, detected: Option<String>)
    ensures
        final(cache).user == (match detected {
            Some(u) => Some(CachedUserEnvironment { username: u }),
            None => None,
        }),
{
    cache.user = match detected {
        Some(u) => Some(CachedUserEnvironment { username: u }),
        None => None,
    };
}

} // verus!
