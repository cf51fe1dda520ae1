//! The identity model and the user-info extraction rules.
//!
//! A user reference in platform markup resolves to one of a closed set of
//! identity kinds: a normal account (with id, display name and stable
//! handle), a guest (display name only), a deleted account (optional id),
//! or the platform's own pseudo-account. Identity and equality across
//! scrapes are carried by the id for normal and deleted accounts; guests
//! are never the same user twice.
use vstd::prelude::*;
use vstd::string::*;

use crate::error::{ParseElementError, WikidotError};
use crate::text;

verus! {

/// One resolved identity. The `user_type` tag names the variant: a
/// `NormalUser`, `GuestUser`, `DeletedUser`, or the platform pseudo-account
/// `WikidotUser`.
#[derive(Clone, Debug)]
pub struct User {
    pub id: Option<i32>,
    pub name: String,
    pub unix_name: Option<String>,
    pub ip: Option<String>,
    pub user_type: String,
}

impl Default for User {
    /// The default identity is a deleted account without a known id.
    fn default() -> (r: Self)
        ensures
            r.id is None,
            r.name@ == "account deleted"@,
            r.unix_name is None,
            r.ip is None,
            r.user_type@ == "DeletedUser"@,
    {
        User {
            id: None,
            name: String::from_str("account deleted"),
            unix_name: None,
            ip: None,
            user_type: String::from_str("DeletedUser"),
        }
    }
}

impl User {
    /// The platform's own pseudo-account.
    pub fn from_wikidot_user() -> (r: Self)
        ensures
            r.id is None,
            r.name@ == "Wikidot"@,
            r.unix_name matches Some(u) && u@ == "wikidot"@,
            r.ip is None,
            r.user_type@ == "WikidotUser"@,
    {
        User {
            id: None,
            name: String::from_str("Wikidot"),
            unix_name: Some(String::from_str("wikidot")),
            ip: None,
            user_type: String::from_str("WikidotUser"),
        }
    }

    /// A guest: a visible name and nothing else; never the same user as any
    /// other reference.
    pub fn from_guest_user(name: String) -> (r: Self)
        ensures
            r.id is None,
            r.name == name,
            r.unix_name is None,
            r.ip is None,
            r.user_type@ == "GuestUser"@,
    {
        User {
            id: None,
            name,
            unix_name: None,
            ip: None,
            user_type: String::from_str("GuestUser"),
        }
    }

    /// A deleted account, identified by its id when the markup still
    /// carries one.
    pub fn from_deleted_user(id: Option<i32>) -> (r: Self)
        ensures
            r.id == id,
            r.name@ == "account deleted"@,
            r.unix_name matches Some(u) && u@ == "account_deleted"@,
            r.ip is None,
            r.user_type@ == "DeletedUser"@,
    {
        User {
            id,
            name: String::from_str("account deleted"),
            unix_name: Some(String::from_str("account_deleted")),
            ip: None,
            user_type: String::from_str("DeletedUser"),
        }
    }

    /// A normal account.
    pub fn from(id: i32, name: String, unix_name: String) -> (r: Self)
        ensures
            r.id == Some(id),
            r.name == name,
            r.unix_name == Some(unix_name),
            r.ip is None,
            r.user_type@ == "NormalUser"@,
    {
        User {
            id: Some(id),
            name,
            unix_name: Some(unix_name),
            ip: None,
            user_type: String::from_str("NormalUser"),
        }
    }

    /// The avatar address of an identity with a known id.
    pub fn avatar(&self) -> (r: Option<String>)
        ensures
            match self.id {
                Some(i) => r matches Some(s) && s@ == "http://www.wikidot.com/avatar.php?userid="@
                    + text::spec_i64_dec(i as int),
                None => r is None,
            },
    {
        match self.id {
            Some(i) => {
                let mut s = String::from_str("http://www.wikidot.com/avatar.php?userid=");
                let digits = text::i64_to_dec(i as i64);
                s.append(digits.as_str());
                Some(s)
            },
            None => None,
        }
    }
}

/// A fetched user snapshot: rank title, join timestamp (milliseconds),
/// avatar address, account-type label and karma level (0 to 5).
#[derive(Clone, Debug)]
pub struct UserProperty {
    pub title: String,
    pub since: i64,
    pub avatar: String,
    pub account_type: String,
    pub karma: i8,
}

/// The first eleven characters of the karma cell, or all of it when
/// shorter; the cell text carries trailing ornament past that width.
pub open spec fn karma_prefix(s: Seq<char>) -> Seq<char> {
    if s.len() <= 11 {
        s
    } else {
        s.subrange(0, 11)
    }
}

/// The ordinal for a karma label: low 1, medium 2, high 3, very high 4,
/// guru 5, anything else 0.
pub open spec fn spec_karma_level(s: Seq<char>) -> int {
    let t = text::spec_trim(karma_prefix(s));
    if t == "low"@ {
        1
    } else if t == "medium"@ {
        2
    } else if t == "high"@ {
        3
    } else if t == "very high"@ {
        4
    } else if t == "guru"@ {
        5
    } else {
        0
    }
}

/// Reads the karma ordinal out of the karma table cell.
pub fn karma_level_of(s: &str) -> (r: i8)
    ensures
        r == spec_karma_level(s@),
        0 <= r <= 5,
{
    let n = s.unicode_len();
    let k: usize = if n <= 11 {
        n
    } else {
        11
    };
    let head = s.substring_char(0, k);
    proof {
        assert(head@ == karma_prefix(s@)) by {
            if s@.len() <= 11 {
                assert(s@.subrange(0, s@.len() as int) =~= s@);
            }
        }
    }
    let t = text::trim_str(head);
    if text::str_eq(t.as_str(), "low") {
        1
    } else if text::str_eq(t.as_str(), "medium") {
        2
    } else if text::str_eq(t.as_str(), "high") {
        3
    } else if text::str_eq(t.as_str(), "very high") {
        4
    } else if text::str_eq(t.as_str(), "guru") {
        5
    } else {
        0
    }
}

/// The account-type label and karma level read off the user-info table:
/// rows are walked in order; an "Account type" row sets the label (fixed to
/// "deleted" when the page carries no title), a "Karma level" row sets the
/// level, later rows win, and a row without the cell a match needs is a
/// markup-shape failure.
pub open spec fn spec_account_info(rows: Seq<Seq<Seq<char>>>, title_empty: bool) -> Result<
    (Seq<char>, int),
    WikidotError,
>
    decreases rows.len(),
{
    if rows.len() == 0 {
        Ok(("free"@, 0))
    } else {
        match spec_account_info(rows.drop_last(), title_empty) {
            Err(e) => Err(e),
            Ok(acc) => {
                let row = rows.last();
                if row.len() == 0 {
                    Err(WikidotError::ParseElement(ParseElementError::UserEle))
                } else {
                    let head = text::spec_trim(row[0]);
                    if head == "Account type"@ {
                        if title_empty {
                            Ok(("deleted"@, acc.1))
                        } else if row.len() < 2 {
                            Err(WikidotError::ParseElement(ParseElementError::UserEle))
                        } else {
                            Ok((text::spec_trim(row[1]), acc.1))
                        }
                    } else if head == "Karma level"@ {
                        if row.len() < 2 {
                            Err(WikidotError::ParseElement(ParseElementError::UserEle))
                        } else {
                            Ok((acc.0, spec_karma_level(text::spec_trim(row[1]))))
                        }
                    } else {
                        Ok(acc)
                    }
                }
            },
        }
    }
}

/// A markup-shape failure in a prefix of the rows decides the whole fold.
proof fn lemma_account_info_err(rows: Seq<Seq<Seq<char>>>, title_empty: bool, k: int)
    requires
        0 <= k <= rows.len(),
        spec_account_info(rows.subrange(0, k), title_empty) is Err,
    ensures
        spec_account_info(rows, title_empty) == spec_account_info(rows.subrange(0, k), title_empty),
    decreases rows.len() - k,
{
    if k == rows.len() {
        assert(rows.subrange(0, k) =~= rows);
    } else {
        assert(rows.subrange(0, k + 1).drop_last() =~= rows.subrange(0, k));
        lemma_account_info_err(rows, title_empty, k + 1);
    }
}

/// Folds the user-info table rows into the account-type label and karma
/// level. `rows` holds the raw cell texts of each table row; `title_empty`
/// says whether the page's title heading was empty, which marks a deleted
/// account whatever the table says.
pub fn account_info_from_rows(rows: &Vec<Vec<String>>, title_empty: bool) -> (r: Result<
    (String, i8),
    WikidotError,
>)
    ensures
        match r {
            Ok(p) => spec_account_info(rows.deep_view(), title_empty) == Ok::<_, WikidotError>(
                (p.0@, p.1 as int),
            ) && 0 <= p.1 <= 5,
            Err(e) => spec_account_info(rows.deep_view(), title_empty) == Err::<
                (Seq<char>, int),
                _,
            >(e),
        },
{
    let ghost dv = rows.deep_view();
    let mut acct = String::from_str("free");
    let mut karma: i8 = 0;
    let mut i: usize = 0;
    proof {
        assert(dv.subrange(0, 0) =~= Seq::<Seq<Seq<char>>>::empty());
    }
    while i < rows.len()
        invariant
            0 <= i <= rows@.len(),
            dv == rows.deep_view(),
            dv.len() == rows@.len(),
            forall|j: int| 0 <= j < rows@.len() ==> #[trigger] dv[j] == rows@[j].deep_view(),
            spec_account_info(dv.subrange(0, i as int), title_empty) == Ok::<_, WikidotError>(
                (acct@, karma as int),
            ),
            0 <= karma <= 5,
        decreases rows@.len() - i,
    {
        let ghost prefix = dv.subrange(0, i as int);
        let ghost row = dv[i as int];
        proof {
            assert(dv.subrange(0, i + 1).drop_last() =~= prefix);
            assert(dv.subrange(0, i + 1).last() == row);
            assert(forall|q: int|
                0 <= q < rows@[i as int]@.len() ==> #[trigger] row[q] == rows@[i as int]@[q]@);
        }
        let cells = &rows[i];
        if cells.len() == 0 {
            proof {
                lemma_account_info_err(dv, title_empty, i + 1);
            }
            return Err(WikidotError::ParseElement(ParseElementError::UserEle));
        }
        let head = text::trim_str(cells[0].as_str());
        if text::str_eq(head.as_str(), "Account type") {
            if title_empty {
                acct = String::from_str("deleted");
            } else if cells.len() < 2 {
                proof {
                    lemma_account_info_err(dv, title_empty, i + 1);
                }
                return Err(WikidotError::ParseElement(ParseElementError::UserEle));
            } else {
                acct = text::trim_str(cells[1].as_str());
            }
        } else if text::str_eq(head.as_str(), "Karma level") {
            if cells.len() < 2 {
                proof {
                    lemma_account_info_err(dv, title_empty, i + 1);
                }
                return Err(WikidotError::ParseElement(ParseElementError::UserEle));
            } else {
                karma = karma_level_of(text::trim_str(cells[1].as_str()).as_str());
            }
        }
        i += 1;
    }
    proof {
        assert(dv.subrange(0, dv.len() as int) =~= dv);
    }
    Ok((acct, karma))
}

} // verus!
