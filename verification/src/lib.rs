//! A pool of background tasks that a single-threaded controller can fill and
//! drain without ever blocking.

pub mod channel;
pub mod executor;
pub mod laws;
pub mod pool;
pub mod status;
pub mod task;
