//! The channel-notify tick: when the topic and announcement change, and
//! when a tick does nothing.
use oncall_sync::models::UserMapping;
use oncall_sync::notifier::notify_tick;
use oncall_sync::notifier::NotifyAction;
use oncall_sync::opsgenie;
use oncall_sync::slack;
use oncall_sync::slack::Channel;
use oncall_sync::slack::ChannelTopic;

fn channel_with_topic(topic: &str) -> Channel {
    Channel {
        id: String::from("C1"),
        name: String::from("general"),
        topic: ChannelTopic {
            value: String::from(topic),
            creator: String::from("U0"),
            last_set: 0,
        },
    }
}

fn mapping(id: i32, opsgenie_id: &str, slack_id: &str) -> UserMapping {
    UserMapping {
        id,
        opsgenie_id: String::from(opsgenie_id),
        slack_id: String::from(slack_id),
    }
}

#[test]
fn tick_updates_topic_and_announces_the_new_oncall() {
    let table = vec![mapping(1, "A", "U1")];
    let fetched = Ok(vec![String::from("A")]);
    let channel = Ok(channel_with_topic("Welcome"));
    match notify_tick(&fetched, &table, &channel) {
        NotifyAction::Update { topic, message } => {
            assert_eq!(topic, "Welcome | Current oncall: <@U1>");
            assert_eq!(
                message,
                "There's a new oncall! Please direct all questions to <@U1>"
            );
        }
        other => panic!("expected an update, got {:?}", other),
    }
}

#[test]
fn tick_is_idempotent_when_the_segment_matches() {
    let table = vec![mapping(1, "A", "U1")];
    let fetched = Ok(vec![String::from("A")]);
    let channel = Ok(channel_with_topic("Welcome | Current oncall: <@U1>"));
    assert!(matches!(
        notify_tick(&fetched, &table, &channel),
        NotifyAction::NoChange
    ));
}

#[test]
fn tick_with_empty_roster_posts_out_of_hours() {
    let table: Vec<UserMapping> = vec![];
    let fetched = Ok(Vec::<String>::new());
    let channel = Ok(channel_with_topic(""));
    match notify_tick(&fetched, &table, &channel) {
        NotifyAction::Update { topic, message } => {
            assert_eq!(topic, "Current oncall: nobody");
            assert_eq!(
                message,
                "This channel's oncall is out of hours. Please wait for the next oncall for urgent requests."
            );
        }
        other => panic!("expected an update, got {:?}", other),
    }
}

#[test]
fn tick_with_unmapped_roster_renders_nobody() {
    let table: Vec<UserMapping> = vec![];
    let fetched = Ok(vec![String::from("A")]);
    let channel = Ok(channel_with_topic("Current oncall: nobody"));
    // The only on-call user has no mapping: the set is empty, the topic
    // already says so, and no message is posted.
    assert!(matches!(
        notify_tick(&fetched, &table, &channel),
        NotifyAction::NoChange
    ));
}

#[test]
fn tick_skips_when_the_roster_fetch_failed() {
    let table = vec![mapping(1, "A", "U1")];
    let fetched: Result<Vec<String>, opsgenie::Error> =
        Err(opsgenie::Error::RequestError(String::from("no route")));
    let channel = Ok(channel_with_topic("Welcome"));
    assert!(matches!(
        notify_tick(&fetched, &table, &channel),
        NotifyAction::Skip
    ));
}

#[test]
fn tick_skips_when_the_channel_fetch_failed() {
    let table = vec![mapping(1, "A", "U1")];
    let fetched = Ok(vec![String::from("A")]);
    let channel: Result<Channel, slack::Error> = Err(slack::Error::HttpErrorCode(500));
    assert!(matches!(
        notify_tick(&fetched, &table, &channel),
        NotifyAction::Skip
    ));
}
