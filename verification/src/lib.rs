//! A scheduled drip-campaign mailer library.
//!
//! Given a mailing-list membership, a catalog of templated messages keyed by
//! elapsed-time offsets, and an opt-out set, the library decides which
//! messages are due for each member on a given day and plans the
//! corresponding sends. The surrounding I/O (membership fetch, template
//! fetch, SMTP transport) lives outside the library and hands it plain
//! values.

pub mod catalog;
pub mod config;
pub mod date;
pub mod digest;
pub mod dispatch;
pub mod duration;
pub mod members;
pub mod resolver;
pub mod retry;
pub mod text;

pub use date::Date;
