//! Rate limiting for HTTP clients: a keyed GCRA admission limiter and the
//! decision step of a request middleware built on it.
pub mod lemmas;
pub mod limiter;
pub mod middleware;
pub mod quota;

pub use limiter::{Decision, RateLimiter};
pub use middleware::{GovernorMiddleware, Verdict};
pub use quota::{Quota, QuotaError};
