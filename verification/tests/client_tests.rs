//! The verified compute halves of the two REST clients: group lookup, bot
//! filtering, participant filtering, pagination and snapshot keying.
use oncall_sync::opsgenie::oncalls_by_id;
use oncall_sync::opsgenie::participant_user_ids;
use oncall_sync::opsgenie::Oncall;
use oncall_sync::opsgenie::OncallParticipant;
use oncall_sync::slack::channels_by_id;
use oncall_sync::slack::get_user_group_from;
use oncall_sync::slack::next_page_cursor;
use oncall_sync::slack::non_bot_users;
use oncall_sync::slack::users_by_id;
use oncall_sync::slack::Channel;
use oncall_sync::slack::ChannelTopic;
use oncall_sync::slack::ConversationListResponseMetadata;
use oncall_sync::slack::Error;
use oncall_sync::slack::User;
use oncall_sync::slack::UserGroup;

fn group(id: &str, name: &str) -> UserGroup {
    UserGroup {
        id: String::from(id),
        name: String::from(name),
        handle: String::from(name),
    }
}

fn user(id: &str, is_bot: bool) -> User {
    User {
        id: String::from(id),
        name: String::from(id),
        real_name: None,
        is_bot,
    }
}

#[test]
fn user_group_is_found_by_id() {
    let groups = vec![group("G1", "alpha"), group("G2", "beta")];
    let found = get_user_group_from(groups, "G2").expect("listed");
    assert_eq!(found.name, "beta");
}

#[test]
fn missing_user_group_is_reported_not_found() {
    let groups = vec![group("G1", "alpha")];
    match get_user_group_from(groups, "G9") {
        Err(Error::UserGroupNotFound) => {}
        other => panic!("expected the not-found error, got {:?}", other),
    }
}

#[test]
fn bots_are_dropped_from_user_listings() {
    let users = vec![user("U1", false), user("B1", true), user("U2", false)];
    let humans = non_bot_users(users);
    let ids: Vec<&str> = humans.iter().map(|u| u.id.as_str()).collect();
    assert_eq!(ids, vec!["U1", "U2"]);
}

#[test]
fn only_user_participants_count_as_oncall() {
    let ps = vec![
        OncallParticipant {
            id: String::from("A"),
            typ: String::from("user"),
        },
        OncallParticipant {
            id: String::from("T"),
            typ: String::from("team"),
        },
        OncallParticipant {
            id: String::from("B"),
            typ: String::from("user"),
        },
    ];
    assert_eq!(
        participant_user_ids(&ps),
        vec![String::from("A"), String::from("B")]
    );
}

#[test]
fn pagination_continues_only_on_a_nonempty_cursor() {
    assert_eq!(next_page_cursor(None), None);
    assert_eq!(
        next_page_cursor(Some(ConversationListResponseMetadata { next_cursor: None })),
        None
    );
    assert_eq!(
        next_page_cursor(Some(ConversationListResponseMetadata {
            next_cursor: Some(String::new()),
        })),
        None
    );
    assert_eq!(
        next_page_cursor(Some(ConversationListResponseMetadata {
            next_cursor: Some(String::from("cursor-2")),
        })),
        Some(String::from("cursor-2"))
    );
}

#[test]
fn snapshots_are_keyed_by_id() {
    let oncalls = vec![
        Oncall {
            id: String::from("o1"),
            name: String::from("primary"),
        },
        Oncall {
            id: String::from("o2"),
            name: String::from("secondary"),
        },
    ];
    let keyed = oncalls_by_id(oncalls);
    assert_eq!(keyed.len(), 2);
    assert_eq!(keyed[0].0, "o1");
    assert_eq!(keyed[0].1.name, "primary");
    assert_eq!(keyed[1].0, "o2");

    let users = vec![user("U1", false)];
    let keyed_users = users_by_id(users);
    assert_eq!(keyed_users[0].0, "U1");

    let channels = vec![Channel {
        id: String::from("C1"),
        name: String::from("general"),
        topic: ChannelTopic {
            value: String::new(),
            creator: String::new(),
            last_set: 0,
        },
    }];
    let keyed_channels = channels_by_id(channels);
    assert_eq!(keyed_channels[0].0, "C1");
}
