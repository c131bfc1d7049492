//! A typed REST client shim: percent-encoded URL construction, ordered
//! query-string assembly, uniform response interpretation, and cursor
//! pagination with a cycle guard.

pub mod client;
pub mod domains;
pub mod encode;
pub mod job_applicants_beta;
pub mod http;
pub mod paginate;
pub mod payroll;
pub mod query;
pub mod template;
