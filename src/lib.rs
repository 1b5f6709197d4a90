//! Collector for SQL session logs: decodes the envelopes that database-client
//! agents send, keeps the decoded sessions, and replays the recorded SQL with
//! its positional bindings filled in.

pub mod codec;
pub mod envelope;
pub mod frame;
pub mod json;
pub mod query;
pub mod store;
