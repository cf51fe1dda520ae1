//! Classification of extracted markup fragments.
//!
//! The structural extraction of sub-fragments (which elements exist, their
//! classes, attributes and text) is the external collaborator's work; what
//! arrives here are plain values. This module holds the two fixed
//! classification rules built on them: a date fragment's `time_<seconds>`
//! class name, and the identity rule that turns a user reference into one
//! of the closed identity kinds, registering fresh ids with the dedup
//! registry as it goes.
use vstd::prelude::*;
use vstd::string::*;

use crate::error::{ParseElementError, WikidotError};
use crate::registry::DedupRegistry;
use crate::text;
use crate::user::User;

verus! {

/// A class name of the form `time_<unix-seconds>`.
pub open spec fn is_time_class(c: Seq<char>) -> bool {
    c.len() > 5 && c.subrange(0, 5) == "time_"@ && text::all_digits(
        c.subrange(5, c.len() as int),
    )
}

/// The timestamp (milliseconds) denoted by the first `time_<seconds>` class
/// in the list, when there is one.
pub open spec fn spec_odate(classes: Seq<Seq<char>>) -> Option<int>
    decreases classes.len(),
{
    if classes.len() == 0 {
        None
    } else if is_time_class(classes[0]) {
        Some(text::dec_value(classes[0].subrange(5, classes[0].len() as int)) * 1000)
    } else {
        spec_odate(classes.drop_first())
    }
}

/// Reads a timestamp off a date fragment's class list: the first class of
/// the form `time_<unix-seconds>` gives the time, in milliseconds. `None`
/// when no class has that form or the value does not fit.
pub fn odate(classes: &Vec<String>) -> (r: Option<i64>)
    ensures
        match spec_odate(classes.deep_view()) {
            None => r is None,
            Some(v) => if v <= i64::MAX {
                r == Some(v as i64)
            } else {
                r is None
            },
        },
{
    let ghost dv = classes.deep_view();
    proof {
        reveal_strlit("time_");
        assert(forall|j: int|
            0 <= j < classes@.len() ==> #[trigger] dv[j] == classes@[j]@);
        assert(dv.subrange(0, dv.len() as int) =~= dv);
    }
    let mut i: usize = 0;
    while i < classes.len()
        invariant
            0 <= i <= classes@.len(),
            dv == classes.deep_view(),
            dv.len() == classes@.len(),
            forall|j: int| 0 <= j < classes@.len() ==> #[trigger] dv[j] == classes@[j]@,
            spec_odate(dv) == spec_odate(dv.subrange(i as int, dv.len() as int)),
        decreases classes@.len() - i,
    {
        let ghost rest = dv.subrange(i as int, dv.len() as int);
        proof {
            reveal_strlit("time_");
            assert(rest[0] == dv[i as int]);
            assert(rest.drop_first() =~= dv.subrange(i + 1, dv.len() as int));
        }
        let c = classes[i].as_str();
        let n = c.unicode_len();
        if text::starts_with(c, "time_") && n > 5 {
            let b = text::digit_run_end(c, 5);
            if b == n {
                assert(is_time_class(c@));
                match text::parse_digit_range(c, 5, n) {
                    None => {
                        // The seconds value exceeds u64::MAX, so the
                        // millisecond value cannot fit in an i64.
                        return None;
                    },
                    Some(v) => {
                        if v <= 9223372036854775u64 {
                            return Some((v * 1000) as i64);
                        } else {
                            return None;
                        }
                    },
                }
            } else {
                proof {
                    assert(!is_time_class(c@)) by {
                        assert(!text::is_digit(c@[b as int]));
                        assert(c@.subrange(5, c@.len() as int)[b - 5] == c@[b as int]);
                    }
                }
            }
        } else {
            proof {
                assert(!is_time_class(c@));
            }
        }
        i += 1;
    }
    proof {
        assert(dv.subrange(i as int, dv.len() as int).len() == 0);
    }
    None
}

/// One anchor element inside a user-reference fragment: its event-handler
/// attribute, its visible text, and its address attribute.
#[derive(Clone, Debug)]
pub struct Anchor {
    pub onclick: Option<String>,
    pub text: String,
    pub href: Option<String>,
}

/// The plain facts extracted from one user-reference fragment: whether a
/// user element was found at all, its classes, its deleted-account id
/// attribute, the fragment's visible text, and the second anchor within it.
#[derive(Clone, Debug)]
pub struct UserFragment {
    pub found: bool,
    pub classes: Vec<String>,
    pub data_id: Option<String>,
    pub text: String,
    pub second_anchor: Option<Anchor>,
}

/// The class list carries the class `c`.
pub open spec fn has_class(classes: Seq<String>, c: Seq<char>) -> bool {
    exists|i: int| 0 <= i < classes.len() && classes[i]@ == c
}

fn has_class_vec(classes: &Vec<String>, c: &str) -> (r: bool)
    ensures
        r == has_class(classes@, c@),
{
    let mut i: usize = 0;
    while i < classes.len()
        invariant
            0 <= i <= classes@.len(),
            forall|j: int| 0 <= j < i ==> classes@[j]@ != c@,
        decreases classes@.len() - i,
    {
        if text::str_eq(classes[i].as_str(), c) {
            return true;
        }
        i += 1;
    }
    false
}

/// `u` is the deleted-account identity with the given id.
pub open spec fn spec_is_deleted(u: User, id: Option<i32>) -> bool {
    &&& u.id == id
    &&& u.name@ == "account deleted"@
    &&& u.unix_name matches Some(x) && x@ == "account_deleted"@
    &&& u.ip is None
    &&& u.user_type@ == "DeletedUser"@
}

/// `u` is the platform pseudo-account.
pub open spec fn spec_is_wikidot(u: User) -> bool {
    &&& u.id is None
    &&& u.name@ == "Wikidot"@
    &&& u.unix_name matches Some(x) && x@ == "wikidot"@
    &&& u.ip is None
    &&& u.user_type@ == "WikidotUser"@
}

/// `u` is a guest with the given visible name.
pub open spec fn spec_is_guest(u: User, name: Seq<char>) -> bool {
    &&& u.id is None
    &&& u.name@ == name
    &&& u.unix_name is None
    &&& u.ip is None
    &&& u.user_type@ == "GuestUser"@
}

/// `u` is a normal account with the given id, name and handle.
pub open spec fn spec_is_normal(u: User, id: i32, name: Seq<char>, unix_name: Seq<char>) -> bool {
    &&& u.id == Some(id)
    &&& u.name@ == name
    &&& u.unix_name matches Some(x) && x@ == unix_name
    &&& u.ip is None
    &&& u.user_type@ == "NormalUser"@
}

/// The address prefix stripped off a normal account's profile link to get
/// its stable handle.
pub open spec fn user_info_prefix() -> Seq<char> {
    "http://www.wikidot.com/user:info/"@
}

/// The registry's discovered set after one observation of `id`.
pub open spec fn discovered_with(reg: DedupRegistry, id: i32) -> Seq<i32> {
    if !reg.is_known(id) && !reg.is_discovered(id) {
        reg.spec_discovered().push(id)
    } else {
        reg.spec_discovered()
    }
}

/// The identity a user-reference fragment denotes, at specification level.
pub enum IdentityView {
    Normal { id: int, name: Seq<char>, unix_name: Seq<char> },
    Guest { name: Seq<char> },
    Deleted { id: Option<int> },
    Wikidot,
}

/// `u` is the executable identity that `iv` describes.
pub open spec fn user_matches(u: User, iv: IdentityView) -> bool {
    match iv {
        IdentityView::Normal { id, name, unix_name } => spec_is_normal(u, id as i32, name, unix_name),
        IdentityView::Guest { name } => spec_is_guest(u, name),
        IdentityView::Deleted { id } => spec_is_deleted(
            u,
            match id {
                Some(v) => Some(v as i32),
                None => None,
            },
        ),
        IdentityView::Wikidot => spec_is_wikidot(u),
    }
}

/// The fixed identity classification rule, at specification level.
pub open spec fn spec_classify(frag: UserFragment) -> Result<IdentityView, WikidotError> {
    if !frag.found {
        Ok(IdentityView::Deleted { id: None })
    } else if has_class(frag.classes@, "deleted"@) {
        match frag.data_id {
            None => Err(WikidotError::ParseElement(ParseElementError::ParserId)),
            Some(s) => match text::spec_parse_int(s@) {
                None => Err(WikidotError::ParseInt),
                Some(v) => if i32::MIN <= v <= i32::MAX {
                    Ok(IdentityView::Deleted { id: Some(v) })
                } else {
                    Err(WikidotError::ParseInt)
                },
            },
        }
    } else if frag.text@ == "Wikidot"@ {
        Ok(IdentityView::Wikidot)
    } else {
        match frag.second_anchor {
            None => Ok(IdentityView::Guest { name: frag.text@ }),
            Some(a) => match a.onclick {
                None => Err(WikidotError::ParseElement(ParseElementError::ParserId)),
                Some(oc) => match text::spec_marker_capture(oc@, "("@, ')') {
                    None => Err(WikidotError::ParseElement(ParseElementError::ParserId)),
                    Some(v) => if !(0 <= v <= i32::MAX) {
                        Err(WikidotError::ParseInt)
                    } else {
                        match a.href {
                            None => Err(
                                WikidotError::ParseElement(ParseElementError::ParserUnixName),
                            ),
                            Some(h) => Ok(
                                IdentityView::Normal {
                                    id: v,
                                    name: a.text@,
                                    unix_name: text::spec_strip_prefix(h@, user_info_prefix()),
                                },
                            ),
                        }
                    },
                },
            },
        }
    }
}

/// The id the classification rule registers with the dedup registry, when
/// it reads one: a deleted account's id attribute, or the id captured from
/// a normal account's event handler — whether or not the rule then fails on
/// a later attribute.
pub open spec fn spec_observed_id(frag: UserFragment) -> Option<int> {
    if !frag.found {
        None
    } else if has_class(frag.classes@, "deleted"@) {
        match frag.data_id {
            None => None,
            Some(s) => match text::spec_parse_int(s@) {
                None => None,
                Some(v) => if i32::MIN <= v <= i32::MAX {
                    Some(v)
                } else {
                    None
                },
            },
        }
    } else if frag.text@ == "Wikidot"@ {
        None
    } else {
        match frag.second_anchor {
            None => None,
            Some(a) => match a.onclick {
                None => None,
                Some(oc) => match text::spec_marker_capture(oc@, "("@, ')') {
                    None => None,
                    Some(v) => if 0 <= v <= i32::MAX {
                        Some(v)
                    } else {
                        None
                    },
                },
            },
        }
    }
}

/// Resolves a user-reference fragment to an identity, by the fixed
/// classification rule: no user element at all means a deleted account
/// without an id; a deleted-marker class means a deleted account whose id
/// sits in the id attribute; the literal platform name means the platform
/// pseudo-account; a second anchor carrying `(<id>)` in its event handler
/// means a normal account; anything else is a guest named by the visible
/// text. Normal and deleted ids are registered with the dedup registry the
/// moment they are read, so a failure later in the rule (a missing address
/// attribute) leaves the id registered.
pub fn printuser(frag: &UserFragment, reg: &mut DedupRegistry) -> (r: Result<User, WikidotError>)
    ensures
        final(reg).spec_known() == old(reg).spec_known(),
        final(reg).spec_pages() == old(reg).spec_pages(),
        final(reg).spec_discovered() == match spec_observed_id(*frag) {
            Some(id) => discovered_with(*old(reg), id as i32),
            None => old(reg).spec_discovered(),
        },
        match spec_classify(*frag) {
            Ok(iv) => r matches Ok(u) && user_matches(u, iv),
            Err(e) => r == Err::<User, WikidotError>(e),
        },
{
    if !frag.found {
        return Ok(User::from_deleted_user(None));
    }
    if has_class_vec(&frag.classes, "deleted") {
        let s = match &frag.data_id {
            None => {
                return Err(WikidotError::ParseElement(ParseElementError::ParserId));
            },
            Some(s) => s,
        };
        let v = match text::parse_int_str(s.as_str()) {
            None => {
                return Err(WikidotError::ParseInt);
            },
            Some(v) => v,
        };
        if v < i32::MIN as i64 || v > i32::MAX as i64 {
            return Err(WikidotError::ParseInt);
        }
        let id = v as i32;
        reg.observe_user(id);
        return Ok(User::from_deleted_user(Some(id)));
    }
    if text::str_eq(frag.text.as_str(), "Wikidot") {
        return Ok(User::from_wikidot_user());
    }
    let a = match &frag.second_anchor {
        None => {
            return Ok(User::from_guest_user(frag.text.clone()));
        },
        Some(a) => a,
    };
    let oc = match &a.onclick {
        None => {
            return Err(WikidotError::ParseElement(ParseElementError::ParserId));
        },
        Some(oc) => oc,
    };
    let bounds = match text::scan_marker_digits(oc.as_str(), "(", ')') {
        None => {
            return Err(WikidotError::ParseElement(ParseElementError::ParserId));
        },
        Some(b) => b,
    };
    let v = match text::parse_digit_range(oc.as_str(), bounds.0, bounds.1) {
        None => {
            proof {
                text::lemma_dec_value_nonneg(oc@.subrange(bounds.0 as int, bounds.1 as int));
            }
            return Err(WikidotError::ParseInt);
        },
        Some(v) => v,
    };
    proof {
        text::lemma_dec_value_nonneg(oc@.subrange(bounds.0 as int, bounds.1 as int));
    }
    if v > i32::MAX as u64 {
        return Err(WikidotError::ParseInt);
    }
    let id = v as i32;
    reg.observe_user(id);
    let h = match &a.href {
        None => {
            return Err(WikidotError::ParseElement(ParseElementError::ParserUnixName));
        },
        Some(h) => h,
    };
    let unix_name = text::strip_prefix_or_self(h.as_str(), "http://www.wikidot.com/user:info/");
    Ok(User::from(id, a.text.clone(), unix_name))
}

} // verus!
