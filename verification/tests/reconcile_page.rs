//! Page reconciliation behaviour: vote diffing, up/down derivation,
//! idempotence, liveness and pagination.
use wikidot::client::AjaxClient;
use wikidot::error::{ParseElementError, WikidotError};
use wikidot::mongo_page::{
    alt_title_entry, apply_liveness, attribution_action, matches_page, needs_refetch,
    process_revisions, tally_votes, up_down, update_page, vote_diff, MongoPage, MongoRateHistory,
    MongoRevision,
};
use wikidot::page::Page;
use wikidot::page_history::Revision;
use wikidot::page_rate::RateUser;
use wikidot::site::{follow_up_offsets, Site};
use wikidot::user::User;
use wikidot::votemap::VoteMap;

fn test_site() -> Site {
    Site {
        client: AjaxClient::new(),
        id: 1,
        title: "T".to_string(),
        unix_name: "w".to_string(),
        ssl_supported: true,
    }
}

fn snapshot(votes_count: i16, rating: i64, updated_at: i64) -> Page {
    Page {
        id: Some(100),
        site: test_site(),
        fullname: "scp-001".to_string(),
        name: "scp-001".to_string(),
        category: "_default".to_string(),
        title: Some("The First".to_string()),
        children_count: 0,
        comments_count: 4,
        size: 1000,
        rating,
        votes_count,
        rating_percent: None,
        revisions_count: 2,
        parent_fullname: None,
        tags: vec!["keter".to_string()],
        created_by: User::from(11, "author".to_string(), "author".to_string()),
        created_at: 1_000_000,
        updated_by: User::from(12, "editor".to_string(), "editor".to_string()),
        updated_at,
        commented_by: None,
        commented_at: None,
    }
}

fn voter(id: i32, rate: i8) -> RateUser {
    RateUser { user: User::from(id, format!("u{id}"), format!("u{id}")), rate }
}

fn revision(index: i16, id: i32, editor: i32, at: i64) -> Revision {
    Revision {
        index,
        id,
        types: vec!['S'],
        created_by: User::from(editor, format!("u{editor}"), format!("u{editor}")),
        created_at: Some(at),
        comment: "c".to_string(),
    }
}

#[test]
fn up_down_derivation() {
    assert_eq!(up_down(10, 4), (7, 3));
    assert_eq!(up_down(0, 0), (0, 0));
    assert_eq!(up_down(3, 1), (2, 1));
}

#[test]
fn vote_diff_records_changed_and_new_voters() {
    // Prior tally {A: +1, B: -1}; new votes {A: +1, B: +1, C: -1}.
    let mut prior = VoteMap::new();
    prior.insert(1, 1);
    prior.insert(2, -1);
    let votes = vec![voter(1, 1), voter(2, 1), voter(3, -1)];
    let (diff, tally) = vote_diff(&prior, &votes).unwrap();
    // Diff: B's prior vote, and a zero for the new voter C.
    assert_eq!(diff.len(), 2);
    assert_eq!(diff.get(2), Some(-1));
    assert_eq!(diff.get(3), Some(0));
    assert_eq!(diff.get(1), None);
    // Tally: the new full vote map.
    assert_eq!(tally.get(1), Some(1));
    assert_eq!(tally.get(2), Some(1));
    assert_eq!(tally.get(3), Some(-1));
    // Aggregates for v=3, r=1: up 2, down 1.
    assert_eq!(up_down(3, 1), (2, 1));
}

#[test]
fn vote_diff_rejects_unresolved_voter() {
    let prior = VoteMap::new();
    let votes = vec![RateUser { user: User::from_guest_user("g".to_string()), rate: 1 }];
    assert_eq!(
        vote_diff(&prior, &votes).unwrap_err(),
        WikidotError::ParseElement(ParseElementError::ParserId)
    );
    assert!(tally_votes(&votes).is_err());
}

#[test]
fn creation_builds_a_live_record() {
    let page = snapshot(2, 2, 5_000_000);
    let votes = vec![voter(21, 1), voter(22, 1)];
    let revs = vec![revision(2, 902, 12, 5_000_000), revision(1, 901, 11, 1_000_000)];
    let rec = update_page(None, &page, &votes, Some((revs, "source text".to_string())), 777).unwrap();
    assert_eq!(rec.id, 100);
    assert_eq!(rec.author, vec![11]);
    assert_eq!(rec.fullname, "scp-001");
    assert_eq!(rec.title, "The First");
    assert_eq!(rec.tags, vec!["keter".to_string()]);
    assert_eq!(rec.source, "source text");
    assert_eq!(rec.rate_history.len(), 1);
    assert_eq!(rec.rate_history[0].timestamp, 777);
    assert_eq!(rec.rate_history[0].up, 2);
    assert_eq!(rec.rate_history[0].down, 0);
    assert_eq!(rec.history.len(), 2);
    assert_eq!(rec.history[0].created_by, 12);
    assert!(rec.status);
    assert_eq!(rec.alternative, "");
    assert_eq!(rec.comments_count, 4);
}

#[test]
fn reconciliation_is_idempotent_without_changes() {
    let page = snapshot(2, 2, 5_000_000);
    let votes = vec![voter(21, 1), voter(22, 1)];
    let revs = vec![revision(2, 902, 12, 5_000_000), revision(1, 901, 11, 1_000_000)];
    let rec1 = update_page(
        None,
        &page,
        &votes,
        Some((revs, "source text".to_string())),
        777,
    )
    .unwrap();
    // Second pass: same snapshot, same votes, refetched data identical.
    let revs2 = vec![revision(2, 902, 12, 5_000_000), revision(1, 901, 11, 1_000_000)];
    let rec2 = update_page(
        Some(rec1.clone()),
        &page,
        &votes,
        Some((revs2, "source text".to_string())),
        888,
    )
    .unwrap();
    assert_eq!(rec2.id, rec1.id);
    assert_eq!(rec2.author, rec1.author);
    assert_eq!(rec2.fullname, rec1.fullname);
    assert_eq!(rec2.title, rec1.title);
    assert_eq!(rec2.tags, rec1.tags);
    assert_eq!(rec2.source, rec1.source);
    assert_eq!(rec2.comments_count, rec1.comments_count);
    assert_eq!(rec2.status, rec1.status);
    assert_eq!(rec2.alternative, rec1.alternative);
    // No spurious rate-history entries: the trail is identical.
    assert_eq!(rec2.rate_history.len(), rec1.rate_history.len());
    assert_eq!(rec2.rate_history[0].timestamp, rec1.rate_history[0].timestamp);
    assert_eq!(
        rec2.rate_history[0].votes.entries(),
        rec1.rate_history[0].votes.entries()
    );
    assert_eq!(rec2.history.len(), rec1.history.len());
    assert_eq!(rec2.history[0].id, rec1.history[0].id);
}

#[test]
fn changed_votes_extend_the_trail() {
    let page = snapshot(2, 2, 5_000_000);
    let votes1 = vec![voter(21, 1), voter(22, 1)];
    let revs = vec![revision(2, 902, 12, 5_000_000), revision(1, 901, 11, 1_000_000)];
    let rec1 = update_page(None, &page, &votes1, Some((revs, "s".to_string())), 777).unwrap();
    // Voter 22 flips, voter 23 arrives.
    let page2 = snapshot(3, 1, 5_000_000);
    let votes2 = vec![voter(21, 1), voter(22, -1), voter(23, 1)];
    let refetched = vec![revision(2, 902, 12, 5_000_000), revision(1, 901, 11, 1_000_000)];
    let rec2 = update_page(Some(rec1), &page2, &votes2, Some((refetched, "s".to_string())), 888)
        .unwrap();
    // The prior tally is replaced by a diff entry plus a fresh tally.
    assert_eq!(rec2.rate_history.len(), 2);
    let diff_entry = &rec2.rate_history[0];
    assert_eq!(diff_entry.timestamp, 777);
    assert_eq!(diff_entry.votes.get(22), Some(1));
    assert_eq!(diff_entry.votes.get(23), Some(0));
    assert_eq!(diff_entry.votes.get(21), None);
    let tally_entry = &rec2.rate_history[1];
    assert_eq!(tally_entry.timestamp, 888);
    assert_eq!(tally_entry.votes.get(22), Some(-1));
    assert_eq!(tally_entry.up, 2);
    assert_eq!(tally_entry.down, 1);
}

#[test]
fn author_appended_only_when_new() {
    let page = snapshot(1, 1, 5_000_000);
    let votes = vec![voter(21, 1)];
    let revs = vec![revision(1, 901, 11, 5_000_000)];
    let rec1 = update_page(None, &page, &votes, Some((revs, "s".to_string())), 1).unwrap();
    assert_eq!(rec1.author, vec![11]);
    // A different creator id on a later snapshot is appended once.
    let mut page2 = snapshot(1, 1, 5_000_000);
    page2.created_by = User::from(99, "other".to_string(), "other".to_string());
    let again = || vec![revision(1, 901, 11, 5_000_000)];
    let rec2 = update_page(Some(rec1), &page2, &votes, Some((again(), "s".to_string())), 2)
        .unwrap();
    assert_eq!(rec2.author, vec![11, 99]);
    let rec3 = update_page(Some(rec2), &page2, &votes, Some((again(), "s".to_string())), 3)
        .unwrap();
    assert_eq!(rec3.author, vec![11, 99]);
}

#[test]
fn empty_rate_history_is_a_shape_failure() {
    let page = snapshot(0, 0, 5_000_000);
    let rec = MongoPage {
        id: 9,
        author: vec![],
        fullname: "f".to_string(),
        title: "t".to_string(),
        tags: vec![],
        source: "s".to_string(),
        rate_history: vec![],
        history: vec![],
        comments_count: 0,
        status: true,
        alternative: String::new(),
    };
    let revs: Vec<Revision> = vec![];
    let r = update_page(Some(rec), &page, &vec![], Some((revs, "s".to_string())), 1);
    assert_eq!(
        r.unwrap_err(),
        WikidotError::ParseElement(ParseElementError::MongoEle)
    );
}

#[test]
fn lookup_key_matches_on_timestamp_and_author() {
    let page = snapshot(1, 1, 5_000_000);
    let rec = MongoPage {
        id: 9,
        author: vec![11],
        fullname: "f".to_string(),
        title: "t".to_string(),
        tags: vec![],
        source: "s".to_string(),
        rate_history: vec![MongoRateHistory {
            timestamp: 5_000_000,
            votes: VoteMap::new(),
            up: 0,
            down: 0,
        }],
        history: vec![MongoRevision {
            index: 1,
            id: 901,
            types: vec!['N'],
            created_by: 11,
            created_at: Some(5_000_000),
            comment: String::new(),
        }],
        comments_count: 0,
        status: true,
        alternative: String::new(),
    };
    assert!(matches_page(&rec, &page));
    // Wrong most-recent revision timestamp: no match.
    let other = snapshot(1, 1, 6_000_000);
    assert!(!matches_page(&rec, &other));
    // Creator id missing from the author list: no match.
    let mut stranger = snapshot(1, 1, 5_000_000);
    stranger.created_by = User::from(77, "x".to_string(), "x".to_string());
    assert!(!matches_page(&rec, &stranger));
    // Refetch only when the last tally timestamp differs.
    assert!(!needs_refetch(&rec, &page));
    assert!(needs_refetch(&rec, &other));
}

#[test]
fn liveness_clears_absent_pages_only() {
    fn rec_with_id(id: i32) -> MongoPage {
        MongoPage {
            id,
            author: vec![],
            fullname: format!("page-{id}"),
            title: String::new(),
            tags: vec![],
            source: String::new(),
            rate_history: vec![],
            history: vec![],
            comments_count: 0,
            status: true,
            alternative: String::new(),
        }
    }
    let records = vec![rec_with_id(1), rec_with_id(2), rec_with_id(3)];
    let live = vec![1, 3];
    let after = apply_liveness(records, &live);
    assert_eq!(after.len(), 3);
    assert!(after[0].status);
    assert!(!after[1].status);
    assert!(after[2].status);
    assert_eq!(after[1].fullname, "page-2");
}

#[test]
fn pagination_covers_every_follow_up_page() {
    // A catalog reporting "of 7" pages needs follow-up calls for pages 2-7.
    let offsets = follow_up_offsets(7);
    assert_eq!(offsets.len(), 6);
    assert_eq!(offsets, vec![250, 500, 750, 1000, 1250, 1500]);
    // Windows [0,250), [250,500), ..., [1500,1750) are disjoint and cover
    // all 7 * 250 result ordinals: no duplicates, nothing missed.
    assert_eq!(follow_up_offsets(1), Vec::<i32>::new());
    assert_eq!(follow_up_offsets(0), Vec::<i32>::new());
}

#[test]
fn process_revisions_requires_editor_ids() {
    let good = vec![revision(1, 901, 11, 5)];
    let out = process_revisions(&good).unwrap();
    assert_eq!(out.len(), 1);
    assert_eq!(out[0].created_by, 11);
    assert_eq!(out[0].types, vec!['S']);
    let bad = vec![Revision {
        index: 1,
        id: 901,
        types: vec![],
        created_by: User::from_guest_user("g".to_string()),
        created_at: None,
        comment: String::new(),
    }];
    assert!(process_revisions(&bad).is_err());
}

#[test]
fn alt_titles_strip_the_leading_slash() {
    let entry = alt_title_entry("/scp-001", "  The First  ").unwrap();
    assert_eq!(entry.0, "scp-001");
    assert_eq!(entry.1, "The First");
    assert_eq!(alt_title_entry("", "x"), None);
}

#[test]
fn attribution_skips_blank_names_and_the_bot() {
    assert_eq!(attribution_action("someone", Some(42)), Some(42));
    assert_eq!(attribution_action("", Some(42)), None);
    assert_eq!(attribution_action("someone", None), None);
    assert_eq!(attribution_action("someone", Some(8528464)), None);
}
