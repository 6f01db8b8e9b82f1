//! Identity resolution: external IDs to directory IDs through the mapping
//! table, dropping unmapped users without an error.
use oncall_sync::models::UserMapping;
use oncall_sync::opsgenie;
use oncall_sync::sync::collect_resolved;
use oncall_sync::sync::get_opsgenie_user_mapping;
use oncall_sync::sync::get_slack_user_mapping;
use oncall_sync::sync::resolve_ids;
use oncall_sync::sync::sync_tick;
use oncall_sync::sync::SyncAction;

fn mapping(id: i32, opsgenie_id: &str, slack_id: &str) -> UserMapping {
    UserMapping {
        id,
        opsgenie_id: String::from(opsgenie_id),
        slack_id: String::from(slack_id),
    }
}

#[test]
fn resolution_drops_unmapped_users_and_keeps_order() {
    let table = vec![mapping(1, "A", "U_A"), mapping(2, "C", "U_C")];
    let ids = vec![String::from("A"), String::from("B"), String::from("C")];
    let resolved = resolve_ids(&table, &ids);
    assert_eq!(resolved, vec![String::from("U_A"), String::from("U_C")]);
}

#[test]
fn resolution_of_fully_unmapped_batch_is_empty() {
    let table = vec![mapping(1, "A", "U_A")];
    let ids = vec![String::from("X"), String::from("Y")];
    assert_eq!(resolve_ids(&table, &ids), Vec::<String>::new());
}

#[test]
fn collect_resolved_drops_the_missing() {
    let lookups = vec![
        Some(String::from("U1")),
        None,
        Some(String::from("U2")),
        None,
    ];
    assert_eq!(
        collect_resolved(&lookups),
        vec![String::from("U1"), String::from("U2")]
    );
}

#[test]
fn lookup_finds_the_first_matching_row() {
    let table = vec![
        mapping(1, "A", "U_A"),
        mapping(2, "A", "U_A2"),
        mapping(3, "B", "U_B"),
    ];
    let by_opsgenie = get_opsgenie_user_mapping(&table, "A").expect("mapped");
    assert_eq!(by_opsgenie.id, 1);
    assert_eq!(by_opsgenie.slack_id, "U_A");
    assert!(get_opsgenie_user_mapping(&table, "Z").is_none());

    let by_slack = get_slack_user_mapping(&table, "U_B").expect("mapped");
    assert_eq!(by_slack.id, 3);
    assert_eq!(by_slack.opsgenie_id, "B");
    assert!(get_slack_user_mapping(&table, "U_Z").is_none());
}

#[test]
fn sync_tick_replaces_members_with_the_resolved_set() {
    let table = vec![mapping(1, "A", "U_A"), mapping(2, "C", "U_C")];
    let fetched = Ok(vec![String::from("A"), String::from("B"), String::from("C")]);
    match sync_tick(&fetched, &table) {
        SyncAction::ReplaceMembers(members) => {
            assert_eq!(members, vec![String::from("U_A"), String::from("U_C")]);
        }
        SyncAction::Skip => panic!("a fetched roster must replace the members"),
    }
}

#[test]
fn sync_tick_skips_when_the_fetch_failed() {
    let table = vec![mapping(1, "A", "U_A")];
    let fetched: Result<Vec<String>, opsgenie::Error> =
        Err(opsgenie::Error::HttpErrorCode(503));
    assert!(matches!(sync_tick(&fetched, &table), SyncAction::Skip));

    let fetched2: Result<Vec<String>, opsgenie::Error> =
        Err(opsgenie::Error::RequestError(String::from("timed out")));
    assert!(matches!(sync_tick(&fetched2, &table), SyncAction::Skip));
}
