//! Keeps a chat workspace's user groups and channel topics in step with who
//! is currently on call according to a paging service.
//!
//! The verified core is the reconciliation logic: the read-through cache's
//! freshness decisions, the topic-merge algorithm, identity resolution from
//! paging-service user IDs to directory user IDs, the per-poller tick
//! decisions, and the supervisor that owns the live set of pollers. All
//! network and store I/O stays outside this crate; the functions here take
//! fetched values and return decisions.
#![allow(unused_imports)]

pub mod cache;
pub mod models;
pub mod notifier;
pub mod opsgenie;
pub mod slack;
pub mod supervisor;
pub mod sync;
pub mod text;
