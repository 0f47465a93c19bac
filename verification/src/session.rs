//! Per-connection session state: the identity claimed by USER, the
//! authentication flag set by a successful PASS, and the configured root
//! path the connection serves.

use vstd::prelude::*;
use crate::text::upper;

verus! {

/// The state one connection handler owns for the lifetime of its connection.
pub struct ConnectionState {
    pub username: String,
    pub connected: bool,
    pub current_path: String,
}

impl ConnectionState {
    /// Session invariant: an authenticated session always carries a
    /// non-empty identity that names the anonymous account up to case.
    pub open spec fn wf(self) -> bool {
        self.connected ==> (self.username@.len() > 0 && upper(self.username@) == "ANONYMOUS"@)
    }

    /// A fresh session for a newly accepted connection: no identity claim,
    /// not authenticated, serving the configured root path.
    pub fn new(current_path: String) -> (s: ConnectionState)
        ensures
            s.username@ == Seq::<char>::empty(),
            !s.connected,
            s.current_path == current_path,
            s.wf(),
    {
        ConnectionState { username: String::new(), connected: false, current_path }
    }
}

} // verus!
