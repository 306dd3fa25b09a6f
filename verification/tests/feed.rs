use background_worker::jobs::sync_updates_feed::build_channel;
use background_worker::jobs::sync_updates_feed::fills_feed;
use background_worker::jobs::sync_updates_feed::select_updates;
use background_worker::jobs::sync_updates_feed::VersionUpdate;
use background_worker::jobs::sync_updates_feed::ALWAYS_INCLUDE_AGE_SECS;
use background_worker::jobs::sync_updates_feed::NUM_ITEMS;

const NOW: i64 = 1_700_000_000;
const MINUTE: i64 = 60;
const HOUR: i64 = 3600;
const DAY: i64 = 86_400;

fn update(version: &str, time: i64) -> VersionUpdate {
    VersionUpdate {
        name: "foo".to_string(),
        version: version.to_string(),
        description: None,
        time,
    }
}

fn versions(updates: &[VersionUpdate]) -> Vec<String> {
    updates.iter().map(|u| u.version.clone()).collect()
}

fn newest_first(mut updates: Vec<VersionUpdate>) -> Vec<VersionUpdate> {
    updates.sort_by(|a, b| b.time.cmp(&a.time));
    updates
}

#[test]
fn feed_item_of_an_update() {
    let update = VersionUpdate {
        name: "serde".to_string(),
        version: "1.0.2".to_string(),
        description: Some("A serialization framework".to_string()),
        time: 1_057_056_757,
    };
    let item = update.into_feed_item("crates.io");
    assert_eq!(item.title, "New crate version published: serde v1.0.2");
    assert_eq!(item.link, "https://crates.io/crates/serde/1.0.2");
    assert_eq!(item.guid, "https://crates.io/crates/serde/1.0.2");
    assert!(item.guid_is_permalink);
    assert_eq!(item.description.as_deref(), Some("A serialization framework"));
    assert_eq!(item.pub_date, "Tue, 1 Jul 2003 10:52:37 +0000");
    assert_eq!(item.extensions.len(), 2);
    assert_eq!(item.extensions[0].key, "name");
    assert_eq!(item.extensions[0].name, "crates:name");
    assert_eq!(item.extensions[0].value, "serde");
    assert_eq!(item.extensions[1].key, "version");
    assert_eq!(item.extensions[1].name, "crates:version");
    assert_eq!(item.extensions[1].value, "1.0.2");
}

#[test]
fn feed_item_dates() {
    assert_eq!(update("1", 0).into_feed_item("d").pub_date, "Thu, 1 Jan 1970 00:00:00 +0000");
    assert_eq!(
        update("1", 1_700_000_000).into_feed_item("d").pub_date,
        "Tue, 14 Nov 2023 22:13:20 +0000"
    );
    assert_eq!(
        update("1", 253_402_300_799).into_feed_item("d").pub_date,
        "Fri, 31 Dec 9999 23:59:59 +0000"
    );
    assert_eq!(
        update("1", -62_167_219_200).into_feed_item("d").pub_date,
        "Sat, 1 Jan 0000 00:00:00 +0000"
    );
}

#[test]
fn feed_item_without_description() {
    let item = update("0.1.0", NOW).into_feed_item("staging.crates.io");
    assert_eq!(item.description, None);
    assert_eq!(item.link, "https://staging.crates.io/crates/foo/0.1.0");
    assert_eq!(item.title, "New crate version published: foo v0.1.0");
}

#[test]
fn channel_of_updates() {
    let updates = vec![update("1.1.0", NOW), update("1.0.0", NOW - DAY)];
    let channel = build_channel("crates.io", "https://static.crates.io/rss/updates.xml".to_string(), &updates);
    assert_eq!(channel.title, "crates.io: recent updates");
    assert_eq!(channel.link, "https://crates.io/");
    assert_eq!(channel.description, "Recent version publishes on the crates.io package registry");
    assert_eq!(channel.language, "en");
    assert_eq!(channel.self_link.href, "https://static.crates.io/rss/updates.xml");
    assert_eq!(channel.self_link.rel, "self");
    assert_eq!(channel.self_link.mime_type, "application/rss+xml");
    assert_eq!(channel.namespace_prefix, "crates");
    assert_eq!(channel.namespace_url, "https://crates.io/");
    assert_eq!(channel.items.len(), 2);
    assert_eq!(channel.items[0].link, "https://crates.io/crates/foo/1.1.0");
    assert_eq!(channel.items[1].link, "https://crates.io/crates/foo/1.0.0");
    assert_eq!(channel.items[1].pub_date, "Mon, 13 Nov 2023 22:13:20 +0000");
}

#[test]
fn channel_without_updates() {
    let channel = build_channel("example.com", "u".to_string(), &Vec::new());
    assert_eq!(channel.link, "https://example.com/");
    assert!(channel.items.is_empty());
}

#[test]
fn feed_constants() {
    assert_eq!(ALWAYS_INCLUDE_AGE_SECS, 60 * MINUTE);
    assert_eq!(NUM_ITEMS, 100);
    assert!(!fills_feed(0));
    assert!(!fills_feed(99));
    assert!(fills_feed(100));
    assert!(fills_feed(110));
}

#[test]
fn test_load_version_updates() {
    let mut all: Vec<VersionUpdate> = Vec::new();
    let updates = select_updates(&all, NOW);
    assert_eq!(updates.len(), 0);

    // If there are less than NUM_ITEMS versions, they should all be returned
    all.push(update("1.0.0", NOW - 123 * DAY));
    all.push(update("1.0.1", NOW - 110 * DAY));
    all.push(update("1.1.0", NOW - 100 * DAY));
    all.push(update("1.2.0", NOW - 90 * DAY));
    let updates = select_updates(&newest_first(all.clone()), NOW);
    assert_eq!(updates.len(), 4);
    assert_eq!(versions(&updates), vec!["1.2.0", "1.1.0", "1.0.1", "1.0.0"]);

    // If there are more than NUM_ITEMS versions, only the most recent NUM_ITEMS should be returned
    for i in 1..=(NUM_ITEMS as i64) {
        all.push(update(&format!("1.2.{i}"), NOW - 90 * DAY + i * HOUR));
    }
    let updates = select_updates(&newest_first(all.clone()), NOW);
    assert_eq!(updates.len(), NUM_ITEMS);
    let expected: Vec<String> = (1..=100).rev().map(|i| format!("1.2.{i}")).collect();
    assert_eq!(versions(&updates), expected);

    // But if there are more than NUM_ITEMS versions that are younger than ALWAYS_INCLUDE_AGE, all of them should be returned
    for i in 1..=(NUM_ITEMS as i64 + 10) {
        all.push(update(&format!("1.3.{i}"), NOW - 30 * MINUTE + i));
    }
    let updates = select_updates(&newest_first(all.clone()), NOW);
    assert_eq!(updates.len(), NUM_ITEMS + 10);
    let expected: Vec<String> = (1..=110).rev().map(|i| format!("1.3.{i}")).collect();
    assert_eq!(versions(&updates), expected);
}

#[test]
fn young_updates_are_padded_with_older_ones() {
    let mut all = Vec::new();
    for i in 0..150 {
        all.push(update(&format!("0.0.{i}"), NOW - i * MINUTE));
    }
    let updates = select_updates(&all, NOW);
    assert_eq!(updates.len(), NUM_ITEMS);
    assert_eq!(updates[0].version, "0.0.0");
    assert_eq!(updates[99].version, "0.0.99");
}

#[test]
fn update_at_the_age_limit_is_not_young() {
    let mut all = Vec::new();
    for i in 0..100 {
        all.push(update(&format!("0.1.{i}"), NOW - ALWAYS_INCLUDE_AGE_SECS + 1));
    }
    all.push(update("old", NOW - ALWAYS_INCLUDE_AGE_SECS));
    assert_eq!(select_updates(&all, NOW).len(), 100);
    let mut more = all.clone();
    more.push(update("young", NOW));
    let updates = select_updates(&more, NOW);
    assert_eq!(updates.len(), 101);
    assert_eq!(updates[100].version, "young");
    assert!(updates.iter().all(|u| u.version != "old"));
}

#[test]
fn selection_copes_with_extreme_times() {
    let all = vec![update("max", i64::MAX), update("min", i64::MIN)];
    assert_eq!(versions(&select_updates(&all, i64::MIN)), vec!["max", "min"]);
    assert_eq!(versions(&select_updates(&all, i64::MAX)), vec!["max", "min"]);
}
