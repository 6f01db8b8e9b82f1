//! The topic-merge algorithm and the rendering of the on-call set.
use oncall_sync::notifier::merge_topic;
use oncall_sync::notifier::render_oncall_string;
use oncall_sync::text::find_first;
use oncall_sync::text::join_str;
use oncall_sync::text::split_str;
use oncall_sync::text::starts_with_str;
use oncall_sync::text::str_eq;

#[test]
fn merge_replaces_the_oncall_segment() {
    let (topic, needs) = merge_topic("Welcome | Current oncall: nobody", "<@U1> <@U2>");
    assert_eq!(topic, "Welcome | Current oncall: <@U1> <@U2>");
    assert!(needs);
}

#[test]
fn merge_matching_segment_needs_no_update() {
    let (topic, needs) = merge_topic("Current oncall: <@U1> <@U2>", "<@U1> <@U2>");
    assert_eq!(topic, "Current oncall: <@U1> <@U2>");
    assert!(!needs);
}

#[test]
fn merge_empty_topic_becomes_the_oncall_segment() {
    let (topic, needs) = merge_topic("", "nobody");
    assert_eq!(topic, "Current oncall: nobody");
    assert!(needs);
}

#[test]
fn merge_appends_to_a_topic_without_a_segment() {
    let (topic, needs) = merge_topic("Welcome", "nobody");
    assert_eq!(topic, "Welcome | Current oncall: nobody");
    assert!(needs);
}

#[test]
fn merge_keeps_other_segments_in_place() {
    let (topic, needs) = merge_topic(
        "Welcome | Current oncall: <@U9> | Handbook: wiki",
        "<@U1>",
    );
    assert_eq!(topic, "Welcome | Current oncall: <@U1> | Handbook: wiki");
    assert!(needs);
}

#[test]
fn merge_same_order_matters() {
    let (topic, needs) = merge_topic("Current oncall: <@U2> <@U1>", "<@U1> <@U2>");
    assert_eq!(topic, "Current oncall: <@U1> <@U2>");
    assert!(needs);
}

#[test]
fn render_empty_set_is_nobody() {
    let ids: Vec<String> = vec![];
    assert_eq!(render_oncall_string(&ids), "nobody");
}

#[test]
fn render_one_mention() {
    let ids = vec![String::from("U1")];
    assert_eq!(render_oncall_string(&ids), "<@U1>");
}

#[test]
fn render_joins_mentions_with_spaces_in_order() {
    let ids = vec![String::from("U1"), String::from("U2"), String::from("U3")];
    assert_eq!(render_oncall_string(&ids), "<@U1> <@U2> <@U3>");
}

#[test]
fn split_and_join_round_trip() {
    let parts = split_str("a | b | c", " | ");
    assert_eq!(parts, vec![String::from("a"), String::from("b"), String::from("c")]);
    assert_eq!(join_str(&parts, " | "), "a | b | c");
}

#[test]
fn split_without_separator_is_one_part() {
    assert_eq!(split_str("plain", " | "), vec![String::from("plain")]);
    assert_eq!(split_str("", " | "), vec![String::from("")]);
}

#[test]
fn find_first_returns_the_leftmost_occurrence() {
    assert_eq!(find_first("a | b | c", " | "), Some(1));
    assert_eq!(find_first("abc", " | "), None);
    assert_eq!(find_first("xyzxyz", "yz"), Some(1));
}

#[test]
fn string_primitives() {
    assert!(str_eq("same", "same"));
    assert!(!str_eq("same", "Same"));
    assert!(!str_eq("short", "shorter"));
    assert!(starts_with_str("Current oncall: nobody", "Current oncall: "));
    assert!(!starts_with_str("Current", "Current oncall: "));
}
