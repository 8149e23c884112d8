//! A verified job-application tracking library.
//!
//! Users record job applications (company, position, status) together with a
//! history of status transitions over time. The core of the library is the
//! application / status-history data model and its filtered, paginated list
//! query: an application's "current status" is always the status of its most
//! recently created history row, never a separately stored field.

pub mod domain;
pub mod errors;
pub mod model;
pub mod payloads;
pub mod seq_facts;
pub mod store;
pub mod text;
