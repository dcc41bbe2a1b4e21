//! Request counters for a small HTTP service: a plain counter, an atomic
//! counter shared by every request-handling context, a linearized model of
//! the counters under many contexts, and the text the service answers with.

pub mod address;
pub mod counter;
pub mod history;
pub mod response;
