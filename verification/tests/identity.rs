//! Identity classification, the dedup registry, and catalog parsing.
use wikidot::error::{ParseElementError, WikidotError};
use wikidot::client::AjaxClient;
use wikidot::page_history::{options_string, revision_from_row, RevisionRow};
use wikidot::page_rate::{vote_value_of, votes_from_fragments};
use wikidot::parser::{odate, printuser, Anchor, UserFragment};
use wikidot::registry::DedupRegistry;
use wikidot::site::{catalog_module_body, parse_page, FieldBody, RawField, Site};
use wikidot::user::User;

fn fresh_registry() -> DedupRegistry {
    DedupRegistry::new(vec![500])
}

fn normal_fragment(id: i32, name: &str) -> UserFragment {
    UserFragment {
        found: true,
        classes: vec!["printuser".to_string()],
        data_id: None,
        text: name.to_string(),
        second_anchor: Some(Anchor {
            onclick: Some(format!("WIKIDOT.page.listeners.userInfo({id}); return false;")),
            text: name.to_string(),
            href: Some(format!("http://www.wikidot.com/user:info/{name}")),
        }),
    }
}

fn empty_fragment() -> UserFragment {
    UserFragment {
        found: false,
        classes: vec![],
        data_id: None,
        text: String::new(),
        second_anchor: None,
    }
}

#[test]
fn user_constructors() {
    let w = User::from_wikidot_user();
    assert_eq!(w.name, "Wikidot");
    assert_eq!(w.user_type, "WikidotUser");
    assert_eq!(w.unix_name.as_deref(), Some("wikidot"));
    let g = User::from_guest_user("visitor".to_string());
    assert_eq!(g.user_type, "GuestUser");
    assert!(g.id.is_none());
    let d = User::from_deleted_user(Some(5));
    assert_eq!(d.id, Some(5));
    assert_eq!(d.name, "account deleted");
    let n = User::from(9, "n".to_string(), "n".to_string());
    assert_eq!(n.user_type, "NormalUser");
    assert_eq!(n.avatar().unwrap(), "http://www.wikidot.com/avatar.php?userid=9");
    assert_eq!(g.avatar(), None);
}

#[test]
fn odate_reads_the_time_class() {
    let classes = vec!["odate".to_string(), "time_1700000000".to_string()];
    assert_eq!(odate(&classes), Some(1_700_000_000_000));
    assert_eq!(odate(&vec!["odate".to_string()]), None);
    assert_eq!(odate(&vec!["time_x".to_string()]), None);
}

#[test]
fn printuser_classifies_normal_accounts_and_registers_them() {
    let mut reg = fresh_registry();
    let u = printuser(&normal_fragment(42, "somebody"), &mut reg).unwrap();
    assert_eq!(u.id, Some(42));
    assert_eq!(u.name, "somebody");
    assert_eq!(u.unix_name.as_deref(), Some("somebody"));
    assert_eq!(u.user_type, "NormalUser");
    assert_eq!(reg.discovered_ids(), &vec![42]);
}

#[test]
fn printuser_classifies_deleted_guest_and_platform() {
    let mut reg = fresh_registry();
    let deleted = UserFragment {
        found: true,
        classes: vec!["printuser".to_string(), "deleted".to_string()],
        data_id: Some("77".to_string()),
        text: "account deleted".to_string(),
        second_anchor: None,
    };
    let d = printuser(&deleted, &mut reg).unwrap();
    assert_eq!(d.id, Some(77));
    assert_eq!(d.user_type, "DeletedUser");
    assert_eq!(reg.discovered_ids(), &vec![77]);
    let none = printuser(&empty_fragment(), &mut reg).unwrap();
    assert_eq!(none.id, None);
    assert_eq!(none.user_type, "DeletedUser");
    let mut wiki = normal_fragment(1, "x");
    wiki.text = "Wikidot".to_string();
    let w = printuser(&wiki, &mut reg).unwrap();
    assert_eq!(w.user_type, "WikidotUser");
    let mut guest = normal_fragment(1, "ghost");
    guest.second_anchor = None;
    let g = printuser(&guest, &mut reg).unwrap();
    assert_eq!(g.user_type, "GuestUser");
    assert_eq!(g.name, "ghost");
    // Only the deleted account's id was registered along the way.
    assert_eq!(reg.discovered_ids(), &vec![77]);
}

#[test]
fn printuser_failures() {
    let mut reg = fresh_registry();
    let mut no_attr = normal_fragment(1, "x");
    no_attr.classes.push("deleted".to_string());
    no_attr.data_id = None;
    assert_eq!(
        printuser(&no_attr, &mut reg).unwrap_err(),
        WikidotError::ParseElement(ParseElementError::ParserId)
    );
    let mut no_onclick = normal_fragment(1, "x");
    no_onclick.second_anchor = Some(Anchor { onclick: None, text: "x".to_string(), href: None });
    assert_eq!(
        printuser(&no_onclick, &mut reg).unwrap_err(),
        WikidotError::ParseElement(ParseElementError::ParserId)
    );
    let mut no_href = normal_fragment(9, "x");
    if let Some(a) = &mut no_href.second_anchor {
        a.href = None;
    }
    assert_eq!(
        printuser(&no_href, &mut reg).unwrap_err(),
        WikidotError::ParseElement(ParseElementError::ParserUnixName)
    );
    // The id was read before the failure, so it is registered anyway.
    assert_eq!(reg.discovered_ids(), &vec![9]);
}

#[test]
fn dedup_registry_queues_each_unknown_id_once() {
    let mut reg = DedupRegistry::new(vec![500]);
    // N observations of the same previously-unknown id: one queue.
    assert!(reg.observe_user(42));
    assert!(!reg.observe_user(42));
    assert!(!reg.observe_user(42));
    // A known id never queues.
    assert!(!reg.observe_user(500));
    // Another unknown id queues once more.
    assert!(reg.observe_user(43));
    assert_eq!(reg.discovered_ids(), &vec![42, 43]);
    reg.note_page(7);
    reg.note_page(7);
    assert_eq!(reg.page_ids(), &vec![7, 7]);
}

#[test]
fn vote_rows_resolve_to_rates() {
    assert_eq!(vote_value_of(" + "), 1);
    assert_eq!(vote_value_of("-1"), -1);
    assert_eq!(vote_value_of("0"), 0);
    let mut reg = fresh_registry();
    let pairs = vec![
        (normal_fragment(1, "a"), "+".to_string()),
        (normal_fragment(2, "b"), "-".to_string()),
    ];
    let votes = votes_from_fragments(&pairs, &mut reg).unwrap();
    assert_eq!(votes.len(), 2);
    assert_eq!(votes[0].user.id, Some(1));
    assert_eq!(votes[0].rate, 1);
    assert_eq!(votes[1].rate, -1);
}

#[test]
fn revision_rows_parse() {
    assert_eq!(options_string(&vec!["all".to_string()]), "{\"all\",}");
    let row = RevisionRow {
        id_attr: Some("revision-row-9021".to_string()),
        index_text: Some("38.".to_string()),
        types_text: Some("S T".to_string()),
        editor: Some(normal_fragment(11, "ed")),
        date_classes: Some(vec!["odate".to_string(), "time_1600000000".to_string()]),
        comment: Some("fixed typo".to_string()),
    };
    let mut reg = fresh_registry();
    let rev = revision_from_row(&row, &mut reg).unwrap();
    assert_eq!(rev.id, 9021);
    assert_eq!(rev.index, 38);
    assert_eq!(rev.types, vec!['S', 'T']);
    assert_eq!(rev.created_by.id, Some(11));
    assert_eq!(rev.created_at, Some(1_600_000_000_000));
    assert_eq!(rev.comment, "fixed typo");
    let mut missing = row.clone();
    missing.id_attr = None;
    assert_eq!(
        revision_from_row(&missing, &mut reg).unwrap_err(),
        WikidotError::ParseElement(ParseElementError::RevisionId)
    );
    let mut no_cell = row.clone();
    no_cell.comment = None;
    assert_eq!(
        revision_from_row(&no_cell, &mut reg).unwrap_err(),
        WikidotError::ParseElement(ParseElementError::RevisionEle)
    );
}

fn text_field(key: &str, value: &str) -> RawField {
    RawField {
        key: key.to_string(),
        value: Some(FieldBody {
            text: value.to_string(),
            odate_classes: vec![],
            user: empty_fragment(),
        }),
    }
}

fn date_field(key: &str, seconds: &str) -> RawField {
    RawField {
        key: key.to_string(),
        value: Some(FieldBody {
            text: String::new(),
            odate_classes: vec![format!("time_{seconds}")],
            user: empty_fragment(),
        }),
    }
}

fn user_field(key: &str, id: i32, name: &str) -> RawField {
    RawField {
        key: key.to_string(),
        value: Some(FieldBody {
            text: name.to_string(),
            odate_classes: vec![],
            user: normal_fragment(id, name),
        }),
    }
}

fn catalog_fields() -> Vec<RawField> {
    vec![
        text_field("fullname", " scp-002 "),
        text_field("name", "scp-002"),
        text_field("category", "_default"),
        text_field("title", "The Second"),
        date_field("created_at", "1500000000"),
        user_field("created_by_linked", 11, "author"),
        date_field("updated_at", "1600000000"),
        user_field("updated_by_linked", 12, "editor"),
        text_field("comments", "4"),
        text_field("size", "12345"),
        text_field("children", "0"),
        text_field("rating_votes", "10"),
        text_field("rating", "+4"),
        text_field("revisions", "7"),
        text_field("tags", "keter alive"),
        text_field("_tags", "co-authored"),
    ]
}

#[test]
fn catalog_element_parses_to_a_snapshot() {
    let site = Site {
        client: AjaxClient::new(),
        id: 1,
        title: "T".to_string(),
        unix_name: "w".to_string(),
        ssl_supported: true,
    };
    let mut reg = fresh_registry();
    let page = parse_page(&catalog_fields(), false, &site, &mut reg).unwrap();
    assert_eq!(page.id, None);
    assert_eq!(page.fullname, "scp-002");
    assert_eq!(page.title.as_deref(), Some("The Second"));
    assert_eq!(page.comments_count, 4);
    assert_eq!(page.size, 12345);
    assert_eq!(page.votes_count, 10);
    assert_eq!(page.rating, 4);
    assert_eq!(page.rating_percent, None);
    assert_eq!(page.revisions_count, 7);
    assert_eq!(page.created_at, 1_500_000_000_000);
    assert_eq!(page.updated_at, 1_600_000_000_000);
    assert_eq!(page.created_by.id, Some(11));
    assert_eq!(page.updated_by.id, Some(12));
    assert!(page.commented_by.is_none());
    assert_eq!(page.commented_at, None);
    assert_eq!(page.parent_fullname, None);
    assert_eq!(
        page.tags,
        vec!["keter".to_string(), "alive".to_string(), "co-authored".to_string()]
    );
    // Both identity references were registered as newly discovered.
    assert_eq!(reg.discovered_ids(), &vec![11, 12]);
    // Up/down derivation for this snapshot: v=10, r=4 gives 7 up, 3 down.
    assert_eq!(wikidot::mongo_page::up_down(page.votes_count, page.rating), (7, 3));
}

#[test]
fn catalog_element_missing_required_field_fails() {
    let site = Site {
        client: AjaxClient::new(),
        id: 1,
        title: "T".to_string(),
        unix_name: "w".to_string(),
        ssl_supported: true,
    };
    let mut reg = fresh_registry();
    let mut fields = catalog_fields();
    fields.retain(|f| f.key != "rating");
    assert_eq!(
        parse_page(&fields, false, &site, &mut reg).unwrap_err(),
        WikidotError::ParseElement(ParseElementError::SiteEle)
    );
    // A count that does not parse is an integer failure.
    let mut bad = catalog_fields();
    for f in &mut bad {
        if f.key == "comments" {
            *f = text_field("comments", "many");
        }
    }
    assert_eq!(
        parse_page(&bad, false, &site, &mut reg).unwrap_err(),
        WikidotError::ParseInt
    );
    // A malformed rating is a decimal failure.
    let mut badr = catalog_fields();
    for f in &mut badr {
        if f.key == "rating" {
            *f = text_field("rating", "4..");
        }
    }
    assert_eq!(
        parse_page(&badr, false, &site, &mut reg).unwrap_err(),
        WikidotError::ParseFloat
    );
}

#[test]
fn star_marker_gates_the_percentage() {
    let site = Site {
        client: AjaxClient::new(),
        id: 1,
        title: "T".to_string(),
        unix_name: "w".to_string(),
        ssl_supported: true,
    };
    let mut reg = fresh_registry();
    let mut fields = catalog_fields();
    fields.push(text_field("rating_percent", "85"));
    let with_star = parse_page(&fields, true, &site, &mut reg).unwrap();
    assert_eq!(with_star.rating_percent, Some(85));
    let without = parse_page(&fields, false, &site, &mut reg).unwrap();
    assert_eq!(without.rating_percent, None);
}

#[test]
fn module_body_template_shape() {
    let body = catalog_module_body();
    assert!(body.starts_with("[[div class=\"page\"]]\n"));
    assert!(body.ends_with("\n[[/div]]"));
    assert!(body.contains("[[span class=\"set fullname\"]]"));
    assert!(body.contains("[[span class=\"value\"]] %%rating_percent%% [[/span]]"));
    assert!(body.contains("%%_tags%%"));
}
