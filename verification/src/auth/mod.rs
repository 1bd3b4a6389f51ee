//! Who may do what: keys and their scopes, the check of a presented key, and
//! the limit on how often one may be used.

pub mod keys;
pub mod middleware;
pub mod rate_limit;
