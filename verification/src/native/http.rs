//! The `http` module of the runtime.
use vstd::prelude::*;

verus! {

/// The requests of the `http` module.
pub enum HTTP {
    Get,
    Post,
    /// As `Get`, but waits for the answer.
    GetSync,
    /// As `Post`, but waits for the answer.
    PostSync,
}

impl HTTP {
    /// A request that waits for its answer. No request is made yet: the
    /// function takes the address and does nothing.
    pub fn get_sync(url: &str) {
    }

    /// A request that waits for its answer. No request is made yet: the
    /// function takes the address and does nothing.
    pub fn post_sync(url: &str) {
    }
}

} // verus!
