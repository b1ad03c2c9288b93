use atrium_api::types::Unknown;
use feed_retention::classify::{ClassificationError, RetentionDecision};
use feed_retention::entry::FeedEntry;
use feed_retention::pipeline::{absorb, collect_targets, holds_target, select_for_deletion};
use feed_retention::time::{checked_cutoff, Duration, Timestamp};

const ME: &str = "did:plc:me";
const OTHER: &str = "did:plc:someone";

// 2024-01-01T00:00:00Z
const NEW_YEAR: i64 = 1_704_067_200;

fn post_created_at(created_at: &str) -> Unknown {
    serde_json::from_str(&format!(
        "{{\"$type\":\"app.bsky.feed.post\",\"createdAt\":\"{}\",\"text\":\"hello\"}}",
        created_at
    ))
    .expect("json")
}

fn entry(uri: &str, author: &str, created_at: &str, repost: Option<&str>) -> FeedEntry {
    FeedEntry::new(
        String::from(uri),
        String::from(author),
        post_created_at(created_at),
        repost.map(String::from),
    )
}

fn malformed(uri: &str, author: &str, repost: Option<&str>) -> FeedEntry {
    let record: Unknown = serde_json::from_str("{\"text\":\"no creation time\"}").expect("json");
    FeedEntry::new(String::from(uri), String::from(author), record, repost.map(String::from))
}

fn me() -> String {
    String::from(ME)
}

fn uris(list: &[&str]) -> Vec<String> {
    list.iter().map(|uri| String::from(*uri)).collect()
}

#[test]
fn own_old_post_and_old_repost_are_selected_and_recent_post_is_not() {
    // now is 2024-01-10T12:00:00Z, the cutoff one day before it
    let now = Timestamp::new(NEW_YEAR + 9 * 86_400 + 43_200, 0);
    let day = Duration::new(24 * 3_600, 0).expect("an age");
    let cutoff = checked_cutoff(now, day).expect("a cutoff");
    assert_eq!(cutoff, Timestamp::new(NEW_YEAR + 8 * 86_400 + 43_200, 0));
    let feed = vec![
        entry("at://me/post/old", ME, "2024-01-05T08:00:00Z", None),
        entry("at://me/post/recent", ME, "2024-01-10T09:00:00Z", None),
        entry("at://other/post/old", OTHER, "2023-11-20T20:00:00Z", Some("at://me/repost/old")),
    ];
    let selected = select_for_deletion(&feed, &me(), cutoff).expect("a selection");
    assert_eq!(selected, uris(&["at://me/post/old", "at://me/repost/old"]));
    assert_eq!(selected.len(), 2);
}

#[test]
fn empty_feed_selects_nothing() {
    let feed: Vec<FeedEntry> = Vec::new();
    assert_eq!(select_for_deletion(&feed, &me(), Timestamp::new(NEW_YEAR, 0)), Ok(Vec::new()));
}

#[test]
fn feed_of_recent_posts_selects_nothing() {
    let feed = vec![
        entry("at://me/post/1", ME, "2024-03-01T00:00:00Z", None),
        entry("at://other/post/1", OTHER, "2024-02-01T00:00:00Z", None),
    ];
    assert_eq!(select_for_deletion(&feed, &me(), Timestamp::new(NEW_YEAR, 0)), Ok(Vec::new()));
}

#[test]
fn selection_keeps_feed_order() {
    let feed = vec![
        entry("at://me/post/c", ME, "2023-12-03T00:00:00Z", None),
        entry("at://other/post/x", OTHER, "2023-12-02T00:00:00Z", Some("at://me/repost/x")),
        entry("at://me/post/a", ME, "2023-12-01T00:00:00Z", None),
        entry("at://me/post/b", ME, "2023-12-04T00:00:00Z", None),
    ];
    assert_eq!(
        select_for_deletion(&feed, &me(), Timestamp::new(NEW_YEAR, 0)),
        Ok(uris(&["at://me/post/c", "at://me/repost/x", "at://me/post/a", "at://me/post/b"]))
    );
}

#[test]
fn same_uri_in_two_entries_is_selected_once() {
    let feed = vec![
        entry("at://me/post/1", ME, "2023-12-03T00:00:00Z", None),
        entry("at://me/post/2", ME, "2023-12-02T00:00:00Z", None),
        entry("at://me/post/1", ME, "2023-12-03T00:00:00Z", None),
        entry("at://other/post/x", OTHER, "2023-12-02T00:00:00Z", Some("at://me/post/2")),
        entry("at://me/post/3", ME, "2023-12-01T00:00:00Z", None),
        entry("at://me/post/1", ME, "2023-12-03T00:00:00Z", None),
    ];
    assert_eq!(
        select_for_deletion(&feed, &me(), Timestamp::new(NEW_YEAR, 0)),
        Ok(uris(&["at://me/post/1", "at://me/post/2", "at://me/post/3"]))
    );
}

#[test]
fn repeated_recent_post_is_not_selected() {
    let feed = vec![
        entry("at://me/post/1", ME, "2024-12-03T00:00:00Z", None),
        entry("at://me/post/1", ME, "2024-12-03T00:00:00Z", None),
    ];
    assert_eq!(select_for_deletion(&feed, &me(), Timestamp::new(NEW_YEAR, 0)), Ok(Vec::new()));
}

#[test]
fn zero_minimum_age_makes_every_existing_post_a_candidate() {
    let now = Timestamp::new(NEW_YEAR, 0);
    let cutoff = checked_cutoff(now, Duration::zero()).expect("a cutoff");
    assert_eq!(cutoff, now);
    let feed = vec![
        entry("at://me/post/now", ME, "2024-01-01T00:00:00Z", None),
        entry("at://me/post/just", ME, "2023-12-31T23:59:59.999999999Z", None),
        entry("at://other/post/x", OTHER, "2023-12-31T00:00:00Z", Some("at://me/repost/x")),
        entry("at://me/post/ancient", ME, "1999-01-01T00:00:00Z", None),
    ];
    assert_eq!(
        select_for_deletion(&feed, &me(), cutoff),
        Ok(uris(&["at://me/post/now", "at://me/post/just", "at://me/repost/x", "at://me/post/ancient"]))
    );
}

#[test]
fn zero_minimum_age_still_fails_on_an_unresolvable_entry() {
    let now = Timestamp::new(NEW_YEAR, 0);
    let cutoff = checked_cutoff(now, Duration::zero()).expect("a cutoff");
    let feed = vec![
        entry("at://me/post/1", ME, "2023-12-31T00:00:00Z", None),
        entry("at://other/post/x", OTHER, "2023-12-31T00:00:00Z", None),
    ];
    assert_eq!(
        select_for_deletion(&feed, &me(), cutoff),
        Err(ClassificationError::UnresolvableRepost)
    );
}

#[test]
fn malformed_payload_anywhere_fails_the_whole_selection() {
    let cutoff = Timestamp::new(NEW_YEAR, 0);
    let last = vec![
        entry("at://me/post/1", ME, "2023-12-03T00:00:00Z", None),
        entry("at://other/post/x", OTHER, "2023-12-02T00:00:00Z", Some("at://me/repost/x")),
        malformed("at://me/post/2", ME, None),
    ];
    assert_eq!(select_for_deletion(&last, &me(), cutoff), Err(ClassificationError::MalformedRecord));
    let first = vec![
        malformed("at://me/post/2", ME, None),
        entry("at://me/post/1", ME, "2023-12-03T00:00:00Z", None),
    ];
    assert_eq!(select_for_deletion(&first, &me(), cutoff), Err(ClassificationError::MalformedRecord));
    let middle = vec![
        entry("at://me/post/1", ME, "2024-12-03T00:00:00Z", None),
        malformed("at://other/post/2", OTHER, Some("at://me/repost/2")),
        entry("at://me/post/3", ME, "2023-12-03T00:00:00Z", None),
    ];
    assert_eq!(select_for_deletion(&middle, &me(), cutoff), Err(ClassificationError::MalformedRecord));
}

#[test]
fn unresolvable_entry_fails_the_whole_selection() {
    let cutoff = Timestamp::new(NEW_YEAR, 0);
    let feed = vec![
        entry("at://me/post/1", ME, "2023-12-03T00:00:00Z", None),
        entry("at://other/post/x", OTHER, "2023-12-02T00:00:00Z", None),
        entry("at://me/post/2", ME, "2023-12-01T00:00:00Z", None),
    ];
    assert_eq!(
        select_for_deletion(&feed, &me(), cutoff),
        Err(ClassificationError::UnresolvableRepost)
    );
}

#[test]
fn first_failure_in_feed_order_is_reported() {
    let cutoff = Timestamp::new(NEW_YEAR, 0);
    let unresolvable_first = vec![
        entry("at://other/post/x", OTHER, "2023-12-02T00:00:00Z", None),
        malformed("at://me/post/2", ME, None),
    ];
    assert_eq!(
        select_for_deletion(&unresolvable_first, &me(), cutoff),
        Err(ClassificationError::UnresolvableRepost)
    );
    let malformed_first = vec![
        malformed("at://me/post/2", ME, None),
        entry("at://other/post/x", OTHER, "2023-12-02T00:00:00Z", None),
    ];
    assert_eq!(
        select_for_deletion(&malformed_first, &me(), cutoff),
        Err(ClassificationError::MalformedRecord)
    );
}

#[test]
fn recent_foreign_entry_without_repost_does_not_fail_the_selection() {
    let cutoff = Timestamp::new(NEW_YEAR, 0);
    let feed = vec![
        entry("at://other/post/x", OTHER, "2024-02-02T00:00:00Z", None),
        entry("at://me/post/1", ME, "2023-12-03T00:00:00Z", None),
    ];
    assert_eq!(select_for_deletion(&feed, &me(), cutoff), Ok(uris(&["at://me/post/1"])));
}

#[test]
fn selection_depends_on_the_acting_user() {
    let cutoff = Timestamp::new(NEW_YEAR, 0);
    let feed = vec![
        entry("at://me/post/1", ME, "2023-12-03T00:00:00Z", Some("at://someone/repost/1")),
        entry("at://other/post/x", OTHER, "2023-12-02T00:00:00Z", Some("at://me/repost/x")),
    ];
    assert_eq!(
        select_for_deletion(&feed, &me(), cutoff),
        Ok(uris(&["at://me/post/1", "at://me/repost/x"]))
    );
    assert_eq!(
        select_for_deletion(&feed, &String::from(OTHER), cutoff),
        Ok(uris(&["at://someone/repost/1", "at://other/post/x"]))
    );
}

#[test]
fn absorb_adds_a_new_identifier_at_the_end() {
    let mut targets = uris(&["at://a"]);
    let done = absorb(&mut targets, &Ok(RetentionDecision::Delete(String::from("at://b"))));
    assert_eq!(done, Ok(()));
    assert_eq!(targets, uris(&["at://a", "at://b"]));
}

#[test]
fn absorb_skips_an_identifier_it_holds() {
    let mut targets = uris(&["at://a", "at://b"]);
    let done = absorb(&mut targets, &Ok(RetentionDecision::Delete(String::from("at://a"))));
    assert_eq!(done, Ok(()));
    assert_eq!(targets, uris(&["at://a", "at://b"]));
}

#[test]
fn absorb_adds_nothing_for_a_kept_entry() {
    let mut targets = uris(&["at://a"]);
    assert_eq!(absorb(&mut targets, &Ok(RetentionDecision::Keep)), Ok(()));
    assert_eq!(targets, uris(&["at://a"]));
}

#[test]
fn absorb_hands_on_a_failure_and_leaves_the_targets() {
    let mut targets = uris(&["at://a"]);
    assert_eq!(
        absorb(&mut targets, &Err(ClassificationError::MalformedRecord)),
        Err(ClassificationError::MalformedRecord)
    );
    assert_eq!(
        absorb(&mut targets, &Err(ClassificationError::UnresolvableRepost)),
        Err(ClassificationError::UnresolvableRepost)
    );
    assert_eq!(targets, uris(&["at://a"]));
}

#[test]
fn holds_target_finds_exact_identifiers_only() {
    let targets = uris(&["at://a", "at://b"]);
    assert!(holds_target(&targets, &String::from("at://a")));
    assert!(holds_target(&targets, &String::from("at://b")));
    assert!(!holds_target(&targets, &String::from("at://c")));
    assert!(!holds_target(&targets, &String::from("at://A")));
    assert!(!holds_target(&targets, &String::from("")));
    assert!(!holds_target(&Vec::new(), &String::from("at://a")));
}

fn delete(uri: &str) -> Result<RetentionDecision, ClassificationError> {
    Ok(RetentionDecision::Delete(String::from(uri)))
}

#[test]
fn collect_targets_keeps_order_and_drops_repeats() {
    let outcomes = vec![
        delete("at://b"),
        Ok(RetentionDecision::Keep),
        delete("at://a"),
        delete("at://b"),
        Ok(RetentionDecision::Keep),
        delete("at://c"),
        delete("at://a"),
    ];
    assert_eq!(collect_targets(&outcomes), Ok(uris(&["at://b", "at://a", "at://c"])));
}

#[test]
fn collect_targets_of_nothing_is_empty() {
    assert_eq!(collect_targets(&Vec::new()), Ok(Vec::new()));
    assert_eq!(collect_targets(&vec![Ok(RetentionDecision::Keep)]), Ok(Vec::new()));
}

#[test]
fn collect_targets_fails_with_the_first_failure() {
    let outcomes = vec![
        delete("at://a"),
        Err(ClassificationError::UnresolvableRepost),
        delete("at://b"),
        Err(ClassificationError::MalformedRecord),
    ];
    assert_eq!(collect_targets(&outcomes), Err(ClassificationError::UnresolvableRepost));
    let outcomes = vec![Err(ClassificationError::MalformedRecord), delete("at://a")];
    assert_eq!(collect_targets(&outcomes), Err(ClassificationError::MalformedRecord));
}
