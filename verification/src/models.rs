//! Records of the external store: sync mappings, notification mappings and
//! user identity mappings. The store itself lives outside this crate; these
//! are the row shapes its callers exchange.
use vstd::prelude::*;

verus! {

/// A sync mapping row: the subject `oncall_id`'s on-call roster drives the
/// membership of the user group `user_group_id`.
#[derive(Debug, Clone)]
pub struct OncallSync {
    pub id: i32,
    pub oncall_id: String,
    pub user_group_id: String,
}

/// A sync mapping about to be inserted; the store assigns the id.
#[derive(Debug)]
pub struct NewOncallSync<'a> {
    pub oncall_id: &'a str,
    pub user_group_id: &'a str,
}

/// An identity mapping row: the paging-service user `opsgenie_id`
/// corresponds to the directory user `slack_id`.
#[derive(Debug, Clone)]
pub struct UserMapping {
    pub id: i32,
    pub opsgenie_id: String,
    pub slack_id: String,
}

/// An identity mapping about to be inserted; the store assigns the id.
#[derive(Debug)]
pub struct NewUserMapping<'a> {
    pub opsgenie_id: &'a str,
    pub slack_id: &'a str,
}

/// A notification mapping row: the subject `oncall_id`'s on-call roster
/// drives the topic and announcements of the channel `slack_channel_id`.
#[derive(Debug, Clone)]
pub struct NotifiedSlackChannel {
    pub id: i32,
    pub oncall_id: String,
    pub slack_channel_id: String,
}

} // verus!
