//! User reconciliation: append-only histories and karma monotonicity.
use wikidot::error::{ParseElementError, WikidotError};
use wikidot::mongo_user::{add_user, update_user, MongoAvatar, MongoKarma, MongoUser};
use wikidot::user::{account_info_from_rows, karma_level_of, UserProperty};

fn prop(title: &str, avatar: &str, karma: i8) -> UserProperty {
    UserProperty {
        title: title.to_string(),
        since: 1_000,
        avatar: avatar.to_string(),
        account_type: "free".to_string(),
        karma,
    }
}

fn seeded() -> MongoUser {
    add_user(7, &prop("Member", "http://img/1", 2), 10)
}

#[test]
fn add_user_seeds_single_element_histories() {
    let u = seeded();
    assert_eq!(u.id, 7);
    assert_eq!(u.join, 1_000);
    assert_eq!(u.title, vec!["Member".to_string()]);
    assert_eq!(u.avatar.len(), 1);
    assert_eq!(u.avatar[0].image, "http://img/1");
    assert_eq!(u.avatar[0].timestamp, 10);
    assert_eq!(u.karma, vec![MongoKarma { level: 2, timestamp: 10 }]);
    assert_eq!(u.account_type, "free");
}

#[test]
fn karma_below_maximum_never_appends() {
    let u = seeded();
    let after = update_user(&u, &prop("Member", "http://img/1", 1), 20).unwrap();
    assert_eq!(after.karma, vec![MongoKarma { level: 2, timestamp: 10 }]);
    let same = update_user(&u, &prop("Member", "http://img/1", 2), 20).unwrap();
    assert_eq!(same.karma, vec![MongoKarma { level: 2, timestamp: 10 }]);
}

#[test]
fn karma_sequence_is_monotonic_across_updates() {
    let mut u = seeded();
    for (level, now) in [(1i8, 20i64), (4, 30), (3, 40), (5, 50), (0, 60)] {
        u = update_user(&u, &prop("Member", "http://img/1", level), now).unwrap();
    }
    let levels: Vec<i8> = u.karma.iter().map(|k| k.level).collect();
    assert_eq!(levels, vec![2, 4, 5]);
    for w in levels.windows(2) {
        assert!(w[0] <= w[1]);
    }
}

#[test]
fn title_appends_only_on_non_empty_change() {
    let u = seeded();
    let changed = update_user(&u, &prop("Elder", "http://img/1", 2), 20).unwrap();
    assert_eq!(changed.title, vec!["Member".to_string(), "Elder".to_string()]);
    let empty = update_user(&u, &prop("", "http://img/1", 2), 20).unwrap();
    assert_eq!(empty.title, vec!["Member".to_string()]);
    let same = update_user(&u, &prop("Member", "http://img/1", 2), 20).unwrap();
    assert_eq!(same.title, vec!["Member".to_string()]);
}

#[test]
fn avatar_appends_on_change() {
    let u = seeded();
    let changed = update_user(&u, &prop("Member", "http://img/2", 2), 25).unwrap();
    assert_eq!(changed.avatar.len(), 2);
    assert_eq!(changed.avatar[1].image, "http://img/2");
    assert_eq!(changed.avatar[1].timestamp, 25);
}

#[test]
fn join_and_account_type_always_overwritten() {
    let u = seeded();
    let mut p = prop("Member", "http://img/1", 2);
    p.since = 9_999;
    p.account_type = "pro".to_string();
    let after = update_user(&u, &p, 20).unwrap();
    assert_eq!(after.join, 9_999);
    assert_eq!(after.account_type, "pro");
}

#[test]
fn empty_history_is_a_shape_failure() {
    let broken = MongoUser {
        id: 7,
        join: 0,
        title: vec![],
        avatar: vec![MongoAvatar { image: String::new(), timestamp: 0 }],
        karma: vec![MongoKarma { level: 0, timestamp: 0 }],
        account_type: String::new(),
    };
    assert_eq!(
        update_user(&broken, &prop("t", "a", 0), 1).unwrap_err(),
        WikidotError::ParseElement(ParseElementError::MongoEle)
    );
}

#[test]
fn karma_labels_map_to_ordinals() {
    assert_eq!(karma_level_of("low"), 1);
    assert_eq!(karma_level_of("medium"), 2);
    assert_eq!(karma_level_of("high"), 3);
    assert_eq!(karma_level_of("very high"), 4);
    assert_eq!(karma_level_of("guru"), 5);
    assert_eq!(karma_level_of("none"), 0);
    // Only the first eleven characters count; ornament past them is cut.
    assert_eq!(karma_level_of("very high  ***"), 4);
}

#[test]
fn account_table_fold() {
    let rows = vec![
        vec!["Something".to_string(), "else".to_string()],
        vec!["Account type".to_string(), " pro ".to_string()],
        vec!["Karma level".to_string(), "guru".to_string()],
    ];
    let (acct, karma) = account_info_from_rows(&rows, false).unwrap();
    assert_eq!(acct, "pro");
    assert_eq!(karma, 5);
    // A page without a title heading marks a deleted account.
    let (acct2, _) = account_info_from_rows(&rows, true).unwrap();
    assert_eq!(acct2, "deleted");
    // No matching rows: the defaults.
    let (acct3, karma3) = account_info_from_rows(&vec![], false).unwrap();
    assert_eq!(acct3, "free");
    assert_eq!(karma3, 0);
    // A row without cells is a shape failure.
    let bad = vec![Vec::<String>::new()];
    assert!(account_info_from_rows(&bad, false).is_err());
}
