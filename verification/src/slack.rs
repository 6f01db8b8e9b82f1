//! Types exchanged with the directory service, and the verified compute
//! halves of the client: finding a user group in a listing, dropping bot
//! accounts, and deciding whether a paginated listing must continue. The
//! HTTP calls themselves happen outside this crate.
use vstd::prelude::*;
use vstd::string::*;

verus! {

/// Failure of a directory-service call, as the rest of the crate sees it.
#[derive(Debug)]
pub enum Error {
    /// The request never produced a response; carries the transport error text.
    RequestError(String),
    /// The service answered with this non-success HTTP status code.
    HttpErrorCode(u16),
    /// No user group with the requested ID exists.
    UserGroupNotFound,
    /// A request URL could not be built; carries the parse error text.
    UrlParseError(String),
}

/// A user group whose membership a sync mapping may drive.
#[derive(Debug, Clone)]
pub struct UserGroup {
    pub id: String,
    pub name: String,
    pub handle: String,
}

/// A directory user. `is_bot` marks automation accounts, which are never
/// put on call.
#[derive(Debug, Clone)]
pub struct User {
    pub id: String,
    pub name: String,
    pub real_name: Option<String>,
    pub is_bot: bool,
}

/// A channel's topic as the directory service reports it.
#[derive(Debug, Clone)]
pub struct ChannelTopic {
    pub value: String,
    pub creator: String,
    pub last_set: u64,
}

/// A channel whose topic a notification mapping may drive.
#[derive(Debug, Clone)]
pub struct Channel {
    pub id: String,
    pub name: String,
    pub topic: ChannelTopic,
}

/// Wire shape of a request to replace a user group's members.
#[derive(Debug, Clone)]
pub struct UserGroupUpdateRequest<'a> {
    pub usergroup: &'a str,
    pub users: &'a [String],
}

/// Wire shape of a request to set a channel's topic.
#[derive(Debug, Clone)]
pub struct ConversationSetTopicRequest<'a> {
    pub channel: &'a str,
    pub topic: &'a str,
}

/// Wire shape of a request to post a message to a channel.
#[derive(Debug, Clone)]
pub struct PostMessageRequest<'a> {
    pub channel: &'a str,
    pub text: &'a str,
}

/// Wire shape of the user-listing response.
#[derive(Debug, Clone)]
pub struct ListUsersResponse {
    pub members: Vec<User>,
}

/// Wire shape of the single-user response.
#[derive(Debug, Clone)]
pub struct GetUserResponse {
    pub user: User,
}

/// Wire shape of the user-group listing response.
#[derive(Debug, Clone)]
pub struct UserGroupsListResponse {
    pub ok: bool,
    pub usergroups: Vec<UserGroup>,
}

/// Pagination metadata of a channel-listing response.
#[derive(Debug, Clone)]
pub struct ConversationListResponseMetadata {
    pub next_cursor: Option<String>,
}

/// Wire shape of one page of the channel listing.
#[derive(Debug, Clone)]
pub struct ConversationsListResponse {
    pub ok: bool,
    pub channels: Vec<Channel>,
    pub response_metadata: Option<ConversationListResponseMetadata>,
}

/// Wire shape of the single-channel response.
#[derive(Debug, Clone)]
pub struct ConversationInfoResponse {
    pub ok: bool,
    pub channel: Channel,
}

/// Wire shape of the set-topic response.
#[derive(Debug, Clone)]
pub struct ConversationSetTopicResponse {
    pub ok: bool,
    pub channel: Channel,
}

/// The first group in the listing whose id is `id`, if any.
pub open spec fn find_group_spec(groups: Seq<UserGroup>, id: Seq<char>) -> Option<UserGroup>
    decreases groups.len(),
{
    if groups.len() == 0 {
        None
    } else if groups[0].id@ == id {
        Some(groups[0])
    } else {
        find_group_spec(groups.drop_first(), id)
    }
}

/// Skipping a prefix in which no group matches does not change the search
/// result.
proof fn lemma_find_group_skip_misses(groups: Seq<UserGroup>, id: Seq<char>, i: int)
    requires
        0 <= i <= groups.len(),
        forall|j: int| 0 <= j < i ==> groups[j].id@ != id,
    ensures
        find_group_spec(groups, id) == find_group_spec(groups.skip(i), id),
    decreases i,
{
    if i > 0 {
        assert(groups.drop_first() =~= groups.skip(1));
        lemma_find_group_skip_misses(groups.skip(1), id, i - 1);
        assert(groups.skip(1).skip(i - 1) =~= groups.skip(i));
    } else {
        assert(groups.skip(0) =~= groups);
    }
}

/// Select the user group with the given ID from a listing; the group is not
/// found exactly when no listed group carries that ID.
pub fn get_user_group_from(groups: Vec<UserGroup>, id: &str) -> (r: Result<UserGroup, Error>)
    ensures
        match r {
            Ok(g) => find_group_spec(groups@, id@) == Some(g),
            Err(e) => find_group_spec(groups@, id@) is None && e is UserGroupNotFound,
        },
{
    let mut found: Option<usize> = None;
    let mut i: usize = 0;
    while i < groups.len()
        invariant
            i <= groups@.len(),
            match found {
                None => forall|j: int| 0 <= j < i ==> groups@[j].id@ != id@,
                Some(f) => f < i && groups@[f as int].id@ == id@ && forall|j: int|
                    0 <= j < f ==> groups@[j].id@ != id@,
            },
        decreases groups@.len() - i,
    {
        if found.is_none() && crate::text::str_eq(groups[i].id.as_str(), id) {
            found = Some(i);
        }
        i += 1;
    }
    match found {
        Some(f) => {
            proof {
                lemma_find_group_skip_misses(groups@, id@, f as int);
                assert(groups@.skip(f as int)[0] == groups@[f as int]);
                assert(groups@.skip(f as int).drop_first() =~= groups@.skip(f + 1));
            }
            let mut rest = groups;
            let g = rest.remove(f);
            Ok(g)
        },
        None => {
            proof {
                lemma_find_group_skip_misses(groups@, id@, groups@.len() as int);
                assert(groups@.skip(groups@.len() as int) =~= Seq::<UserGroup>::empty());
            }
            Err(Error::UserGroupNotFound)
        },
    }
}

/// The listed users that are not bots, in order.
pub open spec fn non_bot_users_spec(users: Seq<User>) -> Seq<User>
    decreases users.len(),
{
    if users.len() == 0 {
        Seq::empty()
    } else {
        let rest = non_bot_users_spec(users.drop_last());
        if !users.last().is_bot {
            rest.push(users.last())
        } else {
            rest
        }
    }
}

/// Drop bot accounts from a user listing, keeping the order.
pub fn non_bot_users(users: Vec<User>) -> (r: Vec<User>)
    ensures
        r@ == non_bot_users_spec(users@),
{
    let ghost users0 = users@;
    let mut rest = users;
    let mut out: Vec<User> = Vec::new();
    let ghost mut taken: int = 0;
    while rest.len() > 0
        invariant
            0 <= taken <= users0.len(),
            rest@ =~= users0.skip(taken),
            out@ == non_bot_users_spec(users0.take(taken)),
        decreases rest@.len(),
    {
        let u = rest.remove(0);
        proof {
            assert(u == users0[taken]);
            assert(users0.take(taken + 1).drop_last() =~= users0.take(taken));
            assert(users0.take(taken + 1).last() == users0[taken]);
        }
        if !u.is_bot {
            out.push(u);
        }
        proof {
            taken = taken + 1;
            assert(rest@ =~= users0.skip(taken));
        }
    }
    proof {
        assert(users0.take(taken) =~= users0);
    }
    out
}

/// The cursor with which the next page of a paginated listing must be
/// requested: present exactly when the response carries metadata with a
/// non-empty cursor.
pub open spec fn next_cursor_spec(meta: Option<ConversationListResponseMetadata>) -> Option<
    Seq<char>,
> {
    match meta {
        Some(m) => match m.next_cursor {
            Some(c) => if c@.len() > 0 {
                Some(c@)
            } else {
                None
            },
            None => None,
        },
        None => None,
    }
}

/// Decide whether a channel listing must fetch another page, and with which
/// cursor.
pub fn next_page_cursor(meta: Option<ConversationListResponseMetadata>) -> (r: Option<String>)
    ensures
        match r {
            Some(c) => next_cursor_spec(meta) == Some(c@),
            None => next_cursor_spec(meta) is None,
        },
{
    match meta {
        Some(m) => match m.next_cursor {
            Some(c) => {
                if c.as_str().is_empty() {
                    None
                } else {
                    Some(c)
                }
            },
            None => None,
        },
        None => None,
    }
}

/// Key each user by its own id, keeping the order.
pub fn users_by_id(list: Vec<User>) -> (r: Vec<(String, User)>)
    ensures
        r@.len() == list@.len(),
        forall|k: int|
            0 <= k < r@.len() ==> r@[k].0@ == list@[k].id@ && r@[k].1 == list@[k],
{
    let ghost list0 = list@;
    let mut items = list;
    let mut out: Vec<(String, User)> = Vec::new();
    while items.len() > 0
        invariant
            out@.len() + items@.len() == list0.len(),
            forall|k: int|
                0 <= k < out@.len() ==> out@[k].0@ == list0[k].id@ && out@[k].1 == list0[k],
            forall|k: int| 0 <= k < items@.len() ==> items@[k] == list0[out@.len() + k],
        decreases items@.len(),
    {
        let item = items.remove(0);
        let key = item.id.clone();
        out.push((key, item));
    }
    out
}

/// Key each channel by its own id, keeping the order.
pub fn channels_by_id(list: Vec<Channel>) -> (r: Vec<(String, Channel)>)
    ensures
        r@.len() == list@.len(),
        forall|k: int|
            0 <= k < r@.len() ==> r@[k].0@ == list@[k].id@ && r@[k].1 == list@[k],
{
    let ghost list0 = list@;
    let mut items = list;
    let mut out: Vec<(String, Channel)> = Vec::new();
    while items.len() > 0
        invariant
            out@.len() + items@.len() == list0.len(),
            forall|k: int|
                0 <= k < out@.len() ==> out@[k].0@ == list0[k].id@ && out@[k].1 == list0[k],
            forall|k: int| 0 <= k < items@.len() ==> items@[k] == list0[out@.len() + k],
        decreases items@.len(),
    {
        let item = items.remove(0);
        let key = item.id.clone();
        out.push((key, item));
    }
    out
}

} // verus!
