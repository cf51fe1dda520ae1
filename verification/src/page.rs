//! The page snapshot and the page-id recovery grammar.
//!
//! A snapshot is produced fresh from one catalog result element each pass
//! and discarded after reconciliation. Its numeric id is resolved lazily:
//! unknown until the page's own document is fetched and the id read out of
//! the inline script marker.
use vstd::prelude::*;

use crate::error::{IdNotFound, TargetNotExist, WikidotError};
use crate::site::Site;
use crate::text;
use crate::user::User;

verus! {

/// One freshly scraped page snapshot. Timestamps are milliseconds; `rating`
/// is the net vote sum; `rating_percent` is the star-rating percentage,
/// kept as an integer per-cent value and only when the star marker was
/// present.
#[derive(Clone, Debug)]
pub struct Page {
    pub id: Option<i32>,
    pub site: Site,
    pub fullname: String,
    pub name: String,
    pub category: String,
    pub title: Option<String>,
    pub children_count: i16,
    pub comments_count: i16,
    pub size: i32,
    pub rating: i64,
    pub votes_count: i16,
    pub rating_percent: Option<i64>,
    pub revisions_count: i16,
    pub parent_fullname: Option<String>,
    pub tags: Vec<String>,
    pub created_by: User,
    pub created_at: i64,
    pub updated_by: User,
    pub updated_at: i64,
    pub commented_by: Option<User>,
    pub commented_at: Option<i64>,
}

/// The inline script marker that carries a page's numeric id.
pub open spec fn page_id_marker() -> Seq<char> {
    "WIKIREQUEST.info.pageId = "@
}

/// Reads a page's numeric id out of its document text: the number behind
/// the first `WIKIREQUEST.info.pageId = <N>;` marker. Absence of the marker
/// means the id cannot be resolved; a value too wide for an id is an
/// integer-parse failure.
pub fn page_id_from_document(text: &str) -> (r: Result<i32, WikidotError>)
    ensures
        match text::spec_marker_capture(text@, page_id_marker(), ';') {
            None => r == Err::<i32, _>(WikidotError::IdNotFound(IdNotFound::Page)),
            Some(v) => if 0 <= v <= i32::MAX {
                r == Ok::<_, WikidotError>(v as i32)
            } else {
                r == Err::<i32, _>(WikidotError::ParseInt)
            },
        },
{
    let bounds = match text::scan_marker_digits(text, "WIKIREQUEST.info.pageId = ", ';') {
        None => {
            return Err(WikidotError::IdNotFound(IdNotFound::Page));
        },
        Some(b) => b,
    };
    proof {
        text::lemma_dec_value_nonneg(text@.subrange(bounds.0 as int, bounds.1 as int));
    }
    match text::parse_digit_range(text, bounds.0, bounds.1) {
        None => Err(WikidotError::ParseInt),
        Some(v) => {
            if v > i32::MAX as u64 {
                Err(WikidotError::ParseInt)
            } else {
                Ok(v as i32)
            }
        },
    }
}

/// How a page-document fetch's HTTP status is treated: a 404 means the page
/// does not exist, which is terminal for that page; anything else hands the
/// document on.
pub fn page_fetch_disposition(status: u16) -> (r: Result<(), WikidotError>)
    ensures
        r == (if status == 404 {
            Result::<(), WikidotError>::Err(
                WikidotError::TargetNotExist(TargetNotExist::Page),
            )
        } else {
            Result::<(), WikidotError>::Ok(())
        }),
{
    if status == 404 {
        Err(WikidotError::TargetNotExist(TargetNotExist::Page))
    } else {
        Ok(())
    }
}

} // verus!
