//! One wiki site and its catalog query machinery.
//!
//! The catalog collector first asks the platform's list module for one page
//! of results, reads the declared total-page indicator out of the answer,
//! and then issues one further call per remaining page, each shifted by a
//! fixed offset, under the session's concurrency bound. Absence of the
//! indicator means a single page. A failure on any page aborts the whole
//! collection: a partial catalog must never feed the liveness step.
use vstd::prelude::*;
use vstd::string::*;

use crate::client::AjaxClient;
use crate::error::{ParseElementError, TargetNotExist, WikidotError};
use crate::page::Page;
use crate::page_rate::{lemma_prefix_reflexive, lemma_prefix_trans};
use crate::parser::{self, UserFragment};
use crate::registry::DedupRegistry;
use crate::text;
use crate::user::User;

verus! {

/// One wiki site: the session it is reached through, its numeric id, its
/// document title, its address name, and whether it answers on TLS.
#[derive(Clone, Debug)]
pub struct Site {
    pub client: AjaxClient,
    pub id: i32,
    pub title: String,
    pub unix_name: String,
    pub ssl_supported: bool,
}

/// The root address of a site.
pub open spec fn spec_site_url(unix_name: Seq<char>, ssl: bool) -> Seq<char> {
    "http"@ + (if ssl {
        "s"@
    } else {
        Seq::empty()
    }) + "://"@ + unix_name + ".wikidot.com"@
}

impl Site {
    /// A field-true copy of this site.
    pub fn duplicate(&self) -> (r: Self)
        ensures
            r == *self,
    {
        Site {
            client: self.client.duplicate(),
            id: self.id,
            title: self.title.clone(),
            unix_name: self.unix_name.clone(),
            ssl_supported: self.ssl_supported,
        }
    }

    /// The root address of this site.
    pub fn url(&self) -> (r: String)
        ensures
            r@ == spec_site_url(self.unix_name@, self.ssl_supported),
    {
        let mut s = String::from_str("http");
        if self.ssl_supported {
            s.append("s");
        }
        s.append("://");
        s.append(self.unix_name.as_str());
        s.append(".wikidot.com");
        proof {
            if !self.ssl_supported {
                assert(s@ =~= spec_site_url(self.unix_name@, self.ssl_supported));
            }
        }
        s
    }

    /// The address of the site's RPC endpoint.
    pub fn connector_url(&self) -> (r: String)
        ensures
            r@ == spec_site_url(self.unix_name@, self.ssl_supported)
                + "/ajax-module-connector.php"@,
    {
        let mut s = self.url();
        s.append("/ajax-module-connector.php");
        s
    }
}

/// The inline script marker that carries a site's numeric id.
pub open spec fn site_id_marker() -> Seq<char> {
    "WIKIREQUEST.info.siteId = "@
}

/// How a site-document fetch's HTTP status is treated.
pub enum SiteFetch {
    /// The site does not exist (a 404 answer): terminal.
    NotFound,
    /// The site redirects the TLS address away (a 301 answer): fetch the
    /// plain address and record that TLS is unsupported.
    RetryPlain,
    /// Any other answer: the site supports TLS; read the document.
    Secure,
}

/// Classifies the HTTP status of the first, TLS fetch of a site document.
pub fn site_fetch_disposition(status: u16) -> (r: SiteFetch)
    ensures
        r == (if status == 404 {
            SiteFetch::NotFound
        } else if status == 301 {
            SiteFetch::RetryPlain
        } else {
            SiteFetch::Secure
        }),
{
    if status == 404 {
        SiteFetch::NotFound
    } else if status == 301 {
        SiteFetch::RetryPlain
    } else {
        SiteFetch::Secure
    }
}

/// The terminal failure for a site that does not exist.
pub fn site_not_found() -> (r: WikidotError)
    ensures
        r == WikidotError::TargetNotExist(TargetNotExist::Site),
{
    WikidotError::TargetNotExist(TargetNotExist::Site)
}

/// Builds a site from its fetched document: the numeric id is read out of
/// the inline script marker `WIKIREQUEST.info.siteId = <N>;` and the title
/// out of the first title tag pair.
pub fn site_from_document(client: &AjaxClient, name: &str, ssl_supported: bool, text: &str) -> (r:
    Result<Site, WikidotError>)
    ensures
        match text::spec_marker_capture(text@, site_id_marker(), ';') {
            None => r == Err::<Site, _>(
                WikidotError::ParseElement(ParseElementError::SiteId),
            ),
            Some(v) => if !(0 <= v <= i32::MAX) {
                r == Err::<Site, _>(WikidotError::ParseInt)
            } else {
                match r {
                    Ok(site) => {
                        &&& site.id == v as i32
                        &&& site.unix_name@ == name@
                        &&& site.ssl_supported == ssl_supported
                        &&& exists|a: int, b: int|
                            text::capture_bounds(text@, "<title>"@, "</title>"@, a, b)
                                && site.title@ == text@.subrange(a, b)
                        &&& site.client == *client
                    },
                    Err(e) => (e == WikidotError::ParseElement(ParseElementError::SiteTitle))
                        && (forall|a: int, b: int|
                        !text::capture_bounds(text@, "<title>"@, "</title>"@, a, b)),
                }
            },
        },
{
    let bounds = match text::scan_marker_digits(text, "WIKIREQUEST.info.siteId = ", ';') {
        None => {
            return Err(WikidotError::ParseElement(ParseElementError::SiteId));
        },
        Some(b) => b,
    };
    proof {
        text::lemma_dec_value_nonneg(text@.subrange(bounds.0 as int, bounds.1 as int));
    }
    let id = match text::parse_digit_range(text, bounds.0, bounds.1) {
        None => {
            return Err(WikidotError::ParseInt);
        },
        Some(v) => {
            if v > i32::MAX as u64 {
                return Err(WikidotError::ParseInt);
            }
            v as i32
        },
    };
    let tb = match text::capture_between(text, "<title>", "</title>") {
        None => {
            return Err(WikidotError::ParseElement(ParseElementError::SiteTitle));
        },
        Some(tb) => tb,
    };
    let title = text.substring_char(tb.0, tb.1).to_owned();
    proof {
        assert(text::capture_bounds(text@, "<title>"@, "</title>"@, tb.0 as int, tb.1 as int));
    }
    Ok(Site {
        client: client.duplicate(),
        id,
        title,
        unix_name: name.to_owned(),
        ssl_supported,
    })
}

/// Reads the declared total page count out of the pager fragment's text:
/// the number after the first "of ". No pager fragment at all means exactly
/// one page of results.
pub fn page_count_from_pager(pager_text: Option<&str>) -> (r: Result<i16, WikidotError>)
    ensures
        match pager_text {
            None => r == Ok::<i16, WikidotError>(1i16),
            Some(t) => match text::spec_prefixed_capture(t@, "of "@) {
                None => r == Err::<i16, _>(
                    WikidotError::ParseElement(ParseElementError::PageNum),
                ),
                Some(v) => if 0 <= v <= i16::MAX {
                    r == Ok::<i16, WikidotError>(v as i16)
                } else {
                    r == Err::<i16, _>(WikidotError::ParseInt)
                },
            },
        },
{
    let t = match pager_text {
        None => {
            return Ok(1);
        },
        Some(t) => t,
    };
    let bounds = match text::scan_prefixed_digits(t, "of ") {
        None => {
            return Err(WikidotError::ParseElement(ParseElementError::PageNum));
        },
        Some(b) => b,
    };
    proof {
        text::lemma_dec_value_nonneg(t@.subrange(bounds.0 as int, bounds.1 as int));
    }
    match text::parse_digit_range(t, bounds.0, bounds.1) {
        None => Err(WikidotError::ParseInt),
        Some(v) => {
            if v > i16::MAX as u64 {
                Err(WikidotError::ParseInt)
            } else {
                Ok(v as i16)
            }
        },
    }
}

/// The result offsets of the follow-up catalog calls: pages 2 to
/// `page_count`, each shifted by one 250-result page more than the last.
/// Together with the first call (offset 0) they cover every result ordinal
/// exactly once.
pub fn follow_up_offsets(page_count: i16) -> (r: Vec<i32>)
    requires
        0 <= page_count,
    ensures
        r@.len() == if page_count >= 2 {
            (page_count - 1) as int
        } else {
            0
        },
        forall|k: int| 0 <= k < r@.len() ==> r@[k] == (k + 1) * 250,
{
    let mut v: Vec<i32> = Vec::new();
    if page_count < 2 {
        return v;
    }
    let n = page_count as i32;
    let mut page: i32 = 2;
    while page <= n
        invariant
            2 <= page <= n + 1,
            n <= i16::MAX,
            v@.len() == page - 2,
            forall|k: int| 0 <= k < v@.len() ==> v@[k] == (k + 1) * 250,
        decreases n + 1 - page,
    {
        v.push((page - 1) * 250);
        page += 1;
    }
    v
}

/// The queryable properties a catalog call asks the list module to render,
/// one placeholder block per property.
pub open spec fn catalog_properties() -> Seq<Seq<char>> {
    seq![
        "fullname"@,
        "category"@,
        "name"@,
        "title"@,
        "created_at"@,
        "created_by_linked"@,
        "updated_at"@,
        "updated_by_linked"@,
        "commented_at"@,
        "commented_by_linked"@,
        "parent_fullname"@,
        "comments"@,
        "size"@,
        "children"@,
        "rating_votes"@,
        "rating"@,
        "rating_percent"@,
        "revisions"@,
        "tags"@,
        "_tags"@,
    ]
}

/// The placeholder block for one property: a set span holding a name span
/// and a value span that the list module fills in.
pub open spec fn spec_property_block(p: Seq<char>) -> Seq<char> {
    "[[span class=\"set "@ + p + "\"]]\n[[span class=\"name\"]] "@ + p
        + " [[/span]]\n[[span class=\"value\"]] %%"@ + p + "%% [[/span]]\n[[/span]]"@
}

/// The synthetic markup template of a catalog call, up to the closing tag.
pub open spec fn spec_module_body(props: Seq<Seq<char>>) -> Seq<char>
    decreases props.len(),
{
    if props.len() == 0 {
        "[[div class=\"page\"]]\n"@
    } else {
        spec_module_body(props.drop_last()) + spec_property_block(props.last())
    }
}

/// Builds the synthetic markup template a catalog call sends as the list
/// module's body: one placeholder block per queryable property, inside a
/// page div.
pub fn catalog_module_body() -> (r: String)
    ensures
        r@ == spec_module_body(catalog_properties()) + "\n[[/div]]"@,
{
    let mut props: Vec<&str> = Vec::new();
    props.push("fullname");
    props.push("category");
    props.push("name");
    props.push("title");
    props.push("created_at");
    props.push("created_by_linked");
    props.push("updated_at");
    props.push("updated_by_linked");
    props.push("commented_at");
    props.push("commented_by_linked");
    props.push("parent_fullname");
    props.push("comments");
    props.push("size");
    props.push("children");
    props.push("rating_votes");
    props.push("rating");
    props.push("rating_percent");
    props.push("revisions");
    props.push("tags");
    props.push("_tags");
    proof {
        assert(forall|k: int|
            0 <= k < 20 ==> props@[k]@ == #[trigger] catalog_properties()[k]);
    }
    let mut s = String::from_str("[[div class=\"page\"]]\n");
    proof {
        assert(catalog_properties().subrange(0, 0).len() == 0);
        assert(s@ =~= spec_module_body(catalog_properties().subrange(0, 0)));
    }
    let mut i: usize = 0;
    while i < props.len()
        invariant
            0 <= i <= 20,
            props@.len() == 20,
            forall|k: int| 0 <= k < 20 ==> props@[k]@ == #[trigger] catalog_properties()[k],
            s@ == spec_module_body(catalog_properties().subrange(0, i as int)),
        decreases 20 - i,
    {
        let p = props[i];
        s.append("[[span class=\"set ");
        s.append(p);
        s.append("\"]]\n[[span class=\"name\"]] ");
        s.append(p);
        s.append(" [[/span]]\n[[span class=\"value\"]] %%");
        s.append(p);
        s.append("%% [[/span]]\n[[/span]]");
        proof {
            assert(catalog_properties().subrange(0, i + 1).drop_last() =~= catalog_properties()
                .subrange(0, i as int));
            assert(catalog_properties().subrange(0, i + 1).last() == catalog_properties()[i as int]);
            assert(s@ =~= spec_module_body(catalog_properties().subrange(0, i + 1)));
        }
        i += 1;
    }
    proof {
        assert(catalog_properties().subrange(0, 20) =~= catalog_properties());
    }
    s.append("\n[[/div]]");
    s
}

/// The extracted contents of one property's value span: its raw text, the
/// class list of the date fragment inside (empty when there is none), and
/// the user-reference facts inside.
#[derive(Clone, Debug)]
pub struct FieldBody {
    pub text: String,
    pub odate_classes: Vec<String>,
    pub user: UserFragment,
}

/// One extracted name/value property pair of a catalog result element;
/// `value` is `None` when the element has a name span but no value span.
#[derive(Clone, Debug)]
pub struct RawField {
    pub key: String,
    pub value: Option<FieldBody>,
}

/// The last occurrence of a property in the element, walking the pairs in
/// order with later occurrences winning: `None` when the property never
/// occurs, `Some(None)` when its last occurrence has no value span.
pub open spec fn last_body(fields: Seq<RawField>, key: Seq<char>) -> Option<Option<FieldBody>>
    decreases fields.len(),
{
    if fields.len() == 0 {
        None
    } else if fields.last().key@ == key {
        Some(fields.last().value)
    } else {
        last_body(fields.drop_last(), key)
    }
}

/// The tag words one property pair contributes: the space-split trimmed
/// value of a tags property, nothing otherwise.
pub open spec fn tag_contrib(f: RawField) -> Seq<Seq<char>> {
    match f.value {
        Some(b) => if f.key@ == "tags"@ || f.key@ == "_tags"@ {
            text::spec_split_spaces(text::spec_trim(b.text@))
        } else {
            Seq::empty()
        },
        None => Seq::empty(),
    }
}

/// All tag words of the element, in pair order.
pub open spec fn all_tags(fields: Seq<RawField>) -> Seq<Seq<char>>
    decreases fields.len(),
{
    if fields.len() == 0 {
        Seq::empty()
    } else {
        all_tags(fields.drop_last()) + tag_contrib(fields.last())
    }
}

/// The properties coerced to a count that the record stores in a narrow
/// field.
pub open spec fn count_key(k: Seq<char>) -> bool {
    k == "comments"@ || k == "children"@ || k == "revisions"@ || k == "rating_votes"@
}

/// The identity-reference properties.
pub open spec fn user_key(k: Seq<char>) -> bool {
    k == "created_by_linked"@ || k == "updated_by_linked"@ || k == "commented_by_linked"@
}

/// The timestamp a value span's date fragment denotes.
pub open spec fn date_value(b: FieldBody) -> Option<i64> {
    crate::page_history::odate_val(b.odate_classes.deep_view())
}

/// The failure one property pair produces while it is coerced, if any: a
/// count that does not parse or overflows its field, a rating or star
/// percentage that does not match the decimal grammar, or an identity
/// reference the classification rule rejects. A pair without a value span
/// never fails here; a missing required property surfaces only at the end.
pub open spec fn spec_field_error(f: RawField, has_star: bool) -> Option<WikidotError> {
    match f.value {
        None => None,
        Some(b) => {
            let k = f.key@;
            if count_key(k) {
                match text::spec_parse_int(text::spec_trim(b.text@)) {
                    None => Some(WikidotError::ParseInt),
                    Some(v) => if i16::MIN <= v <= i16::MAX {
                        None
                    } else {
                        Some(WikidotError::ParseInt)
                    },
                }
            } else if k == "size"@ {
                match text::spec_parse_int(text::spec_trim(b.text@)) {
                    None => Some(WikidotError::ParseInt),
                    Some(v) => if i32::MIN <= v <= i32::MAX {
                        None
                    } else {
                        Some(WikidotError::ParseInt)
                    },
                }
            } else if k == "rating"@ {
                match text::spec_parse_decimal(text::spec_trim(b.text@)) {
                    None => Some(WikidotError::ParseFloat),
                    Some(v) => if i64::MIN <= v <= i64::MAX {
                        None
                    } else {
                        Some(WikidotError::ParseFloat)
                    },
                }
            } else if k == "rating_percent"@ && has_star {
                match text::spec_parse_decimal(text::spec_trim(b.text@)) {
                    None => Some(WikidotError::ParseFloat),
                    Some(v) => if i64::MIN <= v <= i64::MAX {
                        None
                    } else {
                        Some(WikidotError::ParseFloat)
                    },
                }
            } else if user_key(k) {
                match parser::spec_classify(b.user) {
                    Err(e) => Some(e),
                    Ok(_) => None,
                }
            } else {
                None
            }
        },
    }
}

/// The first coercion failure over the pairs in order, if any.
pub open spec fn spec_fields_error(fields: Seq<RawField>, has_star: bool) -> Option<WikidotError>
    decreases fields.len(),
{
    if fields.len() == 0 {
        None
    } else {
        match spec_fields_error(fields.drop_last(), has_star) {
            Some(e) => Some(e),
            None => spec_field_error(fields.last(), has_star),
        }
    }
}

/// A required property is absent from the element (or a required date did
/// not carry a readable timestamp): a hard parse failure for the element.
pub open spec fn spec_missing_required(fields: Seq<RawField>) -> bool {
    ||| !(last_body(fields, "fullname"@) matches Some(Some(_)))
    ||| !(last_body(fields, "name"@) matches Some(Some(_)))
    ||| !(last_body(fields, "category"@) matches Some(Some(_)))
    ||| !(last_body(fields, "comments"@) matches Some(Some(_)))
    ||| !(last_body(fields, "children"@) matches Some(Some(_)))
    ||| !(last_body(fields, "revisions"@) matches Some(Some(_)))
    ||| !(last_body(fields, "rating_votes"@) matches Some(Some(_)))
    ||| !(last_body(fields, "size"@) matches Some(Some(_)))
    ||| !(last_body(fields, "rating"@) matches Some(Some(_)))
    ||| (match last_body(fields, "created_at"@) {
        Some(Some(b)) => date_value(b) is None,
        _ => true,
    })
    ||| (match last_body(fields, "updated_at"@) {
        Some(Some(b)) => date_value(b) is None,
        _ => true,
    })
    ||| !(last_body(fields, "created_by_linked"@) matches Some(Some(_)))
    ||| !(last_body(fields, "updated_by_linked"@) matches Some(Some(_)))
}

/// `p` is the snapshot the element's property pairs denote.
pub open spec fn page_matches(p: Page, fields: Seq<RawField>, has_star: bool, site: Site) -> bool {
    &&& p.id is None
    &&& p.site == site
    &&& (match last_body(fields, "fullname"@) {
        Some(Some(b)) => p.fullname@ == text::spec_trim(b.text@),
        _ => false,
    })
    &&& (match last_body(fields, "name"@) {
        Some(Some(b)) => p.name@ == text::spec_trim(b.text@),
        _ => false,
    })
    &&& (match last_body(fields, "category"@) {
        Some(Some(b)) => p.category@ == text::spec_trim(b.text@),
        _ => false,
    })
    &&& (match last_body(fields, "title"@) {
        Some(Some(b)) => p.title matches Some(t) && t@ == text::spec_trim(b.text@),
        _ => p.title is None,
    })
    &&& (match last_body(fields, "parent_fullname"@) {
        Some(Some(b)) => p.parent_fullname matches Some(t) && t@ == text::spec_trim(b.text@),
        _ => p.parent_fullname is None,
    })
    &&& (match last_body(fields, "comments"@) {
        Some(Some(b)) => Some(p.comments_count as int) == text::spec_parse_int(
            text::spec_trim(b.text@),
        ),
        _ => false,
    })
    &&& (match last_body(fields, "children"@) {
        Some(Some(b)) => Some(p.children_count as int) == text::spec_parse_int(
            text::spec_trim(b.text@),
        ),
        _ => false,
    })
    &&& (match last_body(fields, "revisions"@) {
        Some(Some(b)) => Some(p.revisions_count as int) == text::spec_parse_int(
            text::spec_trim(b.text@),
        ),
        _ => false,
    })
    &&& (match last_body(fields, "rating_votes"@) {
        Some(Some(b)) => Some(p.votes_count as int) == text::spec_parse_int(
            text::spec_trim(b.text@),
        ),
        _ => false,
    })
    &&& (match last_body(fields, "size"@) {
        Some(Some(b)) => Some(p.size as int) == text::spec_parse_int(text::spec_trim(b.text@)),
        _ => false,
    })
    &&& (match last_body(fields, "rating"@) {
        Some(Some(b)) => Some(p.rating as int) == text::spec_parse_decimal(
            text::spec_trim(b.text@),
        ),
        _ => false,
    })
    &&& (if has_star {
        match last_body(fields, "rating_percent"@) {
            Some(Some(b)) => p.rating_percent matches Some(v) && Some(v as int)
                == text::spec_parse_decimal(text::spec_trim(b.text@)),
            _ => p.rating_percent is None,
        }
    } else {
        p.rating_percent is None
    })
    &&& (match last_body(fields, "created_at"@) {
        Some(Some(b)) => Some(p.created_at) == date_value(b),
        _ => false,
    })
    &&& (match last_body(fields, "updated_at"@) {
        Some(Some(b)) => Some(p.updated_at) == date_value(b),
        _ => false,
    })
    &&& p.commented_at == (match last_body(fields, "commented_at"@) {
        Some(Some(b)) => date_value(b),
        _ => None,
    })
    &&& (match last_body(fields, "created_by_linked"@) {
        Some(Some(b)) => parser::spec_classify(b.user) matches Ok(iv) && parser::user_matches(
            p.created_by,
            iv,
        ),
        _ => false,
    })
    &&& (match last_body(fields, "updated_by_linked"@) {
        Some(Some(b)) => parser::spec_classify(b.user) matches Ok(iv) && parser::user_matches(
            p.updated_by,
            iv,
        ),
        _ => false,
    })
    &&& (match last_body(fields, "commented_by_linked"@) {
        Some(Some(b)) => parser::spec_classify(b.user) matches Ok(iv) && p.commented_by matches
            Some(u) && parser::user_matches(u, iv),
        _ => p.commented_by is None,
    })
    &&& p.tags.deep_view() == all_tags(fields)
}

/// The text slot mirrors the last occurrence of its property.
spec fn text_slot_ok(slot: Option<Option<String>>, lb: Option<Option<FieldBody>>) -> bool {
    match lb {
        None => slot is None,
        Some(None) => slot matches Some(o) && o is None,
        Some(Some(b)) => slot matches Some(o) && o matches Some(s) && s@ == text::spec_trim(
            b.text@,
        ),
    }
}

/// The narrow-count slot mirrors the last occurrence of its property.
spec fn count_slot_ok(slot: Option<Option<i16>>, lb: Option<Option<FieldBody>>) -> bool {
    match lb {
        None => slot is None,
        Some(None) => slot matches Some(o) && o is None,
        Some(Some(b)) => slot matches Some(o) && o matches Some(x) && Some(x as int)
            == text::spec_parse_int(text::spec_trim(b.text@)),
    }
}

/// The wide-count slot mirrors the last occurrence of its property.
spec fn size_slot_ok(slot: Option<Option<i32>>, lb: Option<Option<FieldBody>>) -> bool {
    match lb {
        None => slot is None,
        Some(None) => slot matches Some(o) && o is None,
        Some(Some(b)) => slot matches Some(o) && o matches Some(x) && Some(x as int)
            == text::spec_parse_int(text::spec_trim(b.text@)),
    }
}

/// The decimal slot mirrors the last occurrence of its property.
spec fn dec_slot_ok(slot: Option<Option<i64>>, lb: Option<Option<FieldBody>>) -> bool {
    match lb {
        None => slot is None,
        Some(None) => slot matches Some(o) && o is None,
        Some(Some(b)) => slot matches Some(o) && o matches Some(x) && Some(x as int)
            == text::spec_parse_decimal(text::spec_trim(b.text@)),
    }
}

/// The date slot mirrors the last occurrence of its property.
spec fn date_slot_ok(slot: Option<Option<Option<i64>>>, lb: Option<Option<FieldBody>>) -> bool {
    match lb {
        None => slot is None,
        Some(None) => slot matches Some(o) && o is None,
        Some(Some(b)) => slot matches Some(o) && o matches Some(d) && d == date_value(b),
    }
}

/// The identity slot mirrors the last occurrence of its property.
spec fn user_slot_ok(slot: Option<Option<User>>, lb: Option<Option<FieldBody>>) -> bool {
    match lb {
        None => slot is None,
        Some(None) => slot matches Some(o) && o is None,
        Some(Some(b)) => slot matches Some(o) && o matches Some(u) && (parser::spec_classify(
            b.user,
        ) matches Ok(iv) && parser::user_matches(u, iv)),
    }
}

/// The catalog's property names are pairwise distinct, as character
/// sequences.
proof fn lemma_catalog_keys_distinct()
    ensures
        "fullname"@.len() == 8,
        "category"@.len() == 8,
        "name"@.len() == 4,
        "title"@.len() == 5,
        "created_at"@.len() == 10,
        "created_by_linked"@.len() == 17,
        "updated_at"@.len() == 10,
        "updated_by_linked"@.len() == 17,
        "commented_at"@.len() == 12,
        "commented_by_linked"@.len() == 19,
        "parent_fullname"@.len() == 15,
        "comments"@.len() == 8,
        "size"@.len() == 4,
        "children"@.len() == 8,
        "rating_votes"@.len() == 12,
        "rating"@.len() == 6,
        "rating_percent"@.len() == 14,
        "revisions"@.len() == 9,
        "tags"@.len() == 4,
        "_tags"@.len() == 5,
        "fullname"@ != "category"@ && "fullname"@ != "comments"@ && "fullname"@ != "children"@,
        "category"@ != "comments"@ && "category"@ != "children"@,
        "comments"@ != "children"@,
        "name"@ != "size"@ && "name"@ != "tags"@ && "size"@ != "tags"@,
        "title"@ != "_tags"@,
        "created_at"@ != "updated_at"@,
        "commented_at"@ != "rating_votes"@,
        "created_by_linked"@ != "updated_by_linked"@,
{
    reveal_strlit("fullname");
    reveal_strlit("category");
    reveal_strlit("name");
    reveal_strlit("title");
    reveal_strlit("created_at");
    reveal_strlit("created_by_linked");
    reveal_strlit("updated_at");
    reveal_strlit("updated_by_linked");
    reveal_strlit("commented_at");
    reveal_strlit("commented_by_linked");
    reveal_strlit("parent_fullname");
    reveal_strlit("comments");
    reveal_strlit("size");
    reveal_strlit("children");
    reveal_strlit("rating_votes");
    reveal_strlit("rating");
    reveal_strlit("rating_percent");
    reveal_strlit("revisions");
    reveal_strlit("tags");
    reveal_strlit("_tags");
    assert("fullname"@[0] == 'f' && "category"@[0] == 'c');
    assert("comments"@[1] == 'o' && "category"@[1] == 'a' && "children"@[1] == 'h');
    assert("name"@[0] == 'n' && "size"@[0] == 's' && "tags"@[0] == 't');
    assert("title"@[0] == 't' && "_tags"@[0] == '_');
    assert("created_at"@[0] == 'c' && "updated_at"@[0] == 'u');
    assert("commented_at"@[0] == 'c' && "rating_votes"@[0] == 'r');
    assert("created_by_linked"@[0] == 'c' && "updated_by_linked"@[0] == 'u');
}

/// A coercion failure in a prefix of the pairs decides the whole element.
proof fn lemma_fields_error_prefix(fields: Seq<RawField>, has_star: bool, k: int)
    requires
        0 <= k <= fields.len(),
        spec_fields_error(fields.subrange(0, k), has_star) is Some,
    ensures
        spec_fields_error(fields, has_star) == spec_fields_error(
            fields.subrange(0, k),
            has_star,
        ),
    decreases fields.len() - k,
{
    if k == fields.len() {
        assert(fields.subrange(0, k) =~= fields);
    } else {
        assert(fields.subrange(0, k + 1).drop_last() =~= fields.subrange(0, k));
        lemma_fields_error_prefix(fields, has_star, k + 1);
    }
}

/// Builds one page snapshot out of a result element's extracted property
/// pairs, applying the fixed coercion table: text properties are trimmed,
/// counts parsed as integers, the rating parsed as a decimal and truncated,
/// the star percentage kept only when the star marker is present, dates
/// read through the date-class grammar, identity references resolved
/// through the classification rule (registering fresh ids with the dedup
/// registry), and the two tag properties split on spaces and accumulated.
/// Later occurrences of a property overwrite earlier ones; a required
/// property that is absent — or whose value span is missing — fails the
/// element.
#[verifier::rlimit(100)]
pub fn parse_page(
    fields: &Vec<RawField>,
    has_star: bool,
    site: &Site,
    reg: &mut DedupRegistry,
) -> (r: Result<Page, WikidotError>)
    ensures
        final(reg).spec_known() == old(reg).spec_known(),
        final(reg).spec_pages() == old(reg).spec_pages(),
        old(reg).spec_discovered().is_prefix_of(final(reg).spec_discovered()),
        match spec_fields_error(fields@, has_star) {
            Some(e) => r == Err::<Page, _>(e),
            None => if spec_missing_required(fields@) {
                r == Err::<Page, _>(WikidotError::ParseElement(ParseElementError::SiteEle))
            } else {
                r matches Ok(p) && page_matches(p, fields@, has_star, *site)
            },
        },
{
    let ghost fv = fields@;
    let mut fullname_s: Option<Option<String>> = None;
    let mut name_s: Option<Option<String>> = None;
    let mut category_s: Option<Option<String>> = None;
    let mut title_s: Option<Option<String>> = None;
    let mut parent_s: Option<Option<String>> = None;
    let mut comments_s: Option<Option<i16>> = None;
    let mut children_s: Option<Option<i16>> = None;
    let mut revisions_s: Option<Option<i16>> = None;
    let mut votes_s: Option<Option<i16>> = None;
    let mut size_s: Option<Option<i32>> = None;
    let mut rating_s: Option<Option<i64>> = None;
    let mut percent_s: Option<Option<i64>> = None;
    let mut created_at_s: Option<Option<Option<i64>>> = None;
    let mut updated_at_s: Option<Option<Option<i64>>> = None;
    let mut commented_at_s: Option<Option<Option<i64>>> = None;
    let mut created_by_s: Option<Option<User>> = None;
    let mut updated_by_s: Option<Option<User>> = None;
    let mut commented_by_s: Option<Option<User>> = None;
    let mut tags: Vec<String> = Vec::new();
    proof {
        lemma_prefix_reflexive(reg.spec_discovered());
        assert(fv.subrange(0, 0).len() == 0);
        assert(tags.deep_view() =~= all_tags(fv.subrange(0, 0)));
    }
    let mut i: usize = 0;
    while i < fields.len()
        invariant
            0 <= i <= fv.len(),
            fv == fields@,
            reg.spec_known() == old(reg).spec_known(),
            reg.spec_pages() == old(reg).spec_pages(),
            old(reg).spec_discovered().is_prefix_of(reg.spec_discovered()),
            spec_fields_error(fv.subrange(0, i as int), has_star) is None,
            text_slot_ok(fullname_s, last_body(fv.subrange(0, i as int), "fullname"@)),
            text_slot_ok(name_s, last_body(fv.subrange(0, i as int), "name"@)),
            text_slot_ok(category_s, last_body(fv.subrange(0, i as int), "category"@)),
            text_slot_ok(title_s, last_body(fv.subrange(0, i as int), "title"@)),
            text_slot_ok(parent_s, last_body(fv.subrange(0, i as int), "parent_fullname"@)),
            count_slot_ok(comments_s, last_body(fv.subrange(0, i as int), "comments"@)),
            count_slot_ok(children_s, last_body(fv.subrange(0, i as int), "children"@)),
            count_slot_ok(revisions_s, last_body(fv.subrange(0, i as int), "revisions"@)),
            count_slot_ok(votes_s, last_body(fv.subrange(0, i as int), "rating_votes"@)),
            size_slot_ok(size_s, last_body(fv.subrange(0, i as int), "size"@)),
            dec_slot_ok(rating_s, last_body(fv.subrange(0, i as int), "rating"@)),
            has_star ==> dec_slot_ok(
                percent_s,
                last_body(fv.subrange(0, i as int), "rating_percent"@),
            ),
            date_slot_ok(created_at_s, last_body(fv.subrange(0, i as int), "created_at"@)),
            date_slot_ok(updated_at_s, last_body(fv.subrange(0, i as int), "updated_at"@)),
            date_slot_ok(commented_at_s, last_body(fv.subrange(0, i as int), "commented_at"@)),
            user_slot_ok(created_by_s, last_body(fv.subrange(0, i as int), "created_by_linked"@)),
            user_slot_ok(updated_by_s, last_body(fv.subrange(0, i as int), "updated_by_linked"@)),
            user_slot_ok(
                commented_by_s,
                last_body(fv.subrange(0, i as int), "commented_by_linked"@),
            ),
            tags.deep_view() == all_tags(fv.subrange(0, i as int)),
        decreases fv.len() - i,
    {
        let ghost prefix = fv.subrange(0, i as int);
        let ghost newpre = fv.subrange(0, i + 1);
        proof {
            lemma_catalog_keys_distinct();
            assert(newpre.drop_last() =~= prefix);
            assert(newpre.last() == fv[i as int]);
        }
        let f = &fields[i];
        if text::str_eq(f.key.as_str(), "fullname") {
            match &f.value {
                None => {
                    fullname_s = Some(None);
                },
                Some(b) => {
                    fullname_s = Some(Some(text::trim_str(b.text.as_str())));
                },
            }
        } else if text::str_eq(f.key.as_str(), "name") {
            match &f.value {
                None => {
                    name_s = Some(None);
                },
                Some(b) => {
                    name_s = Some(Some(text::trim_str(b.text.as_str())));
                },
            }
        } else if text::str_eq(f.key.as_str(), "category") {
            match &f.value {
                None => {
                    category_s = Some(None);
                },
                Some(b) => {
                    category_s = Some(Some(text::trim_str(b.text.as_str())));
                },
            }
        } else if text::str_eq(f.key.as_str(), "title") {
            match &f.value {
                None => {
                    title_s = Some(None);
                },
                Some(b) => {
                    title_s = Some(Some(text::trim_str(b.text.as_str())));
                },
            }
        } else if text::str_eq(f.key.as_str(), "parent_fullname") {
            match &f.value {
                None => {
                    parent_s = Some(None);
                },
                Some(b) => {
                    parent_s = Some(Some(text::trim_str(b.text.as_str())));
                },
            }
        } else if text::str_eq(f.key.as_str(), "comments") {
            match &f.value {
                None => {
                    comments_s = Some(None);
                },
                Some(b) => {
                    let t = text::trim_str(b.text.as_str());
                    match text::parse_int_str(t.as_str()) {
                        None => {
                            proof {
                                lemma_fields_error_prefix(fv, has_star, i + 1);
                            }
                            return Err(WikidotError::ParseInt);
                        },
                        Some(n) => {
                            if n < i16::MIN as i64 || n > i16::MAX as i64 {
                                proof {
                                    lemma_fields_error_prefix(fv, has_star, i + 1);
                                }
                                return Err(WikidotError::ParseInt);
                            }
                            comments_s = Some(Some(n as i16));
                        },
                    }
                },
            }
        } else if text::str_eq(f.key.as_str(), "children") {
            match &f.value {
                None => {
                    children_s = Some(None);
                },
                Some(b) => {
                    let t = text::trim_str(b.text.as_str());
                    match text::parse_int_str(t.as_str()) {
                        None => {
                            proof {
                                lemma_fields_error_prefix(fv, has_star, i + 1);
                            }
                            return Err(WikidotError::ParseInt);
                        },
                        Some(n) => {
                            if n < i16::MIN as i64 || n > i16::MAX as i64 {
                                proof {
                                    lemma_fields_error_prefix(fv, has_star, i + 1);
                                }
                                return Err(WikidotError::ParseInt);
                            }
                            children_s = Some(Some(n as i16));
                        },
                    }
                },
            }
        } else if text::str_eq(f.key.as_str(), "revisions") {
            match &f.value {
                None => {
                    revisions_s = Some(None);
                },
                Some(b) => {
                    let t = text::trim_str(b.text.as_str());
                    match text::parse_int_str(t.as_str()) {
                        None => {
                            proof {
                                lemma_fields_error_prefix(fv, has_star, i + 1);
                            }
                            return Err(WikidotError::ParseInt);
                        },
                        Some(n) => {
                            if n < i16::MIN as i64 || n > i16::MAX as i64 {
                                proof {
                                    lemma_fields_error_prefix(fv, has_star, i + 1);
                                }
                                return Err(WikidotError::ParseInt);
                            }
                            revisions_s = Some(Some(n as i16));
                        },
                    }
                },
            }
        } else if text::str_eq(f.key.as_str(), "rating_votes") {
            match &f.value {
                None => {
                    votes_s = Some(None);
                },
                Some(b) => {
                    let t = text::trim_str(b.text.as_str());
                    match text::parse_int_str(t.as_str()) {
                        None => {
                            proof {
                                lemma_fields_error_prefix(fv, has_star, i + 1);
                            }
                            return Err(WikidotError::ParseInt);
                        },
                        Some(n) => {
                            if n < i16::MIN as i64 || n > i16::MAX as i64 {
                                proof {
                                    lemma_fields_error_prefix(fv, has_star, i + 1);
                                }
                                return Err(WikidotError::ParseInt);
                            }
                            votes_s = Some(Some(n as i16));
                        },
                    }
                },
            }
        } else if text::str_eq(f.key.as_str(), "size") {
            match &f.value {
                None => {
                    size_s = Some(None);
                },
                Some(b) => {
                    let t = text::trim_str(b.text.as_str());
                    match text::parse_int_str(t.as_str()) {
                        None => {
                            proof {
                                lemma_fields_error_prefix(fv, has_star, i + 1);
                            }
                            return Err(WikidotError::ParseInt);
                        },
                        Some(n) => {
                            if n < i32::MIN as i64 || n > i32::MAX as i64 {
                                proof {
                                    lemma_fields_error_prefix(fv, has_star, i + 1);
                                }
                                return Err(WikidotError::ParseInt);
                            }
                            size_s = Some(Some(n as i32));
                        },
                    }
                },
            }
        } else if text::str_eq(f.key.as_str(), "rating") {
            match &f.value {
                None => {
                    rating_s = Some(None);
                },
                Some(b) => {
                    let t = text::trim_str(b.text.as_str());
                    match text::parse_decimal_trunc(t.as_str()) {
                        None => {
                            proof {
                                lemma_fields_error_prefix(fv, has_star, i + 1);
                            }
                            return Err(WikidotError::ParseFloat);
                        },
                        Some(n) => {
                            rating_s = Some(Some(n));
                        },
                    }
                },
            }
        } else if text::str_eq(f.key.as_str(), "rating_percent") {
            if has_star {
                match &f.value {
                    None => {
                        percent_s = Some(None);
                    },
                    Some(b) => {
                        let t = text::trim_str(b.text.as_str());
                        match text::parse_decimal_trunc(t.as_str()) {
                            None => {
                                proof {
                                    lemma_fields_error_prefix(fv, has_star, i + 1);
                                }
                                return Err(WikidotError::ParseFloat);
                            },
                            Some(n) => {
                                percent_s = Some(Some(n));
                            },
                        }
                    },
                }
            }
        } else if text::str_eq(f.key.as_str(), "created_at") {
            match &f.value {
                None => {
                    created_at_s = Some(None);
                },
                Some(b) => {
                    created_at_s = Some(Some(parser::odate(&b.odate_classes)));
                },
            }
        } else if text::str_eq(f.key.as_str(), "updated_at") {
            match &f.value {
                None => {
                    updated_at_s = Some(None);
                },
                Some(b) => {
                    updated_at_s = Some(Some(parser::odate(&b.odate_classes)));
                },
            }
        } else if text::str_eq(f.key.as_str(), "commented_at") {
            match &f.value {
                None => {
                    commented_at_s = Some(None);
                },
                Some(b) => {
                    commented_at_s = Some(Some(parser::odate(&b.odate_classes)));
                },
            }
        } else if text::str_eq(f.key.as_str(), "created_by_linked") {
            match &f.value {
                None => {
                    created_by_s = Some(None);
                },
                Some(b) => {
                    let ghost disc_before = reg.spec_discovered();
                    let res = parser::printuser(&b.user, reg);
                    proof {
                        assert(disc_before.is_prefix_of(reg.spec_discovered())) by {
                            match parser::spec_observed_id(b.user) {
                                Some(idv) => {
                                    assert(disc_before =~= reg.spec_discovered().subrange(
                                        0,
                                        disc_before.len() as int,
                                    ));
                                },
                                None => {
                                    lemma_prefix_reflexive(reg.spec_discovered());
                                },
                            }
                        }
                        lemma_prefix_trans(
                            old(reg).spec_discovered(),
                            disc_before,
                            reg.spec_discovered(),
                        );
                    }
                    match res {
                        Err(e) => {
                            proof {
                                lemma_fields_error_prefix(fv, has_star, i + 1);
                            }
                            return Err(e);
                        },
                        Ok(u) => {
                            created_by_s = Some(Some(u));
                        },
                    }
                },
            }
        } else if text::str_eq(f.key.as_str(), "updated_by_linked") {
            match &f.value {
                None => {
                    updated_by_s = Some(None);
                },
                Some(b) => {
                    let ghost disc_before = reg.spec_discovered();
                    let res = parser::printuser(&b.user, reg);
                    proof {
                        assert(disc_before.is_prefix_of(reg.spec_discovered())) by {
                            match parser::spec_observed_id(b.user) {
                                Some(idv) => {
                                    assert(disc_before =~= reg.spec_discovered().subrange(
                                        0,
                                        disc_before.len() as int,
                                    ));
                                },
                                None => {
                                    lemma_prefix_reflexive(reg.spec_discovered());
                                },
                            }
                        }
                        lemma_prefix_trans(
                            old(reg).spec_discovered(),
                            disc_before,
                            reg.spec_discovered(),
                        );
                    }
                    match res {
                        Err(e) => {
                            proof {
                                lemma_fields_error_prefix(fv, has_star, i + 1);
                            }
                            return Err(e);
                        },
                        Ok(u) => {
                            updated_by_s = Some(Some(u));
                        },
                    }
                },
            }
        } else if text::str_eq(f.key.as_str(), "commented_by_linked") {
            match &f.value {
                None => {
                    commented_by_s = Some(None);
                },
                Some(b) => {
                    let ghost disc_before = reg.spec_discovered();
                    let res = parser::printuser(&b.user, reg);
                    proof {
                        assert(disc_before.is_prefix_of(reg.spec_discovered())) by {
                            match parser::spec_observed_id(b.user) {
                                Some(idv) => {
                                    assert(disc_before =~= reg.spec_discovered().subrange(
                                        0,
                                        disc_before.len() as int,
                                    ));
                                },
                                None => {
                                    lemma_prefix_reflexive(reg.spec_discovered());
                                },
                            }
                        }
                        lemma_prefix_trans(
                            old(reg).spec_discovered(),
                            disc_before,
                            reg.spec_discovered(),
                        );
                    }
                    match res {
                        Err(e) => {
                            proof {
                                lemma_fields_error_prefix(fv, has_star, i + 1);
                            }
                            return Err(e);
                        },
                        Ok(u) => {
                            commented_by_s = Some(Some(u));
                        },
                    }
                },
            }
        } else if text::str_eq(f.key.as_str(), "tags") || text::str_eq(f.key.as_str(), "_tags") {
            match &f.value {
                None => {},
                Some(b) => {
                    let trimmed = text::trim_str(b.text.as_str());
                    let mut parts = text::split_spaces(trimmed.as_str());
                    let ghost tg = tags.deep_view();
                    let ghost pv = parts.deep_view();
                    tags.append(&mut parts);
                    proof {
                        assert(tags.deep_view() =~= tg + pv);
                        assert(tags.deep_view() =~= all_tags(newpre));
                    }
                },
            }
        } else {
            // A property outside the coercion table is ignored.
        }
        i += 1;
    }
    proof {
        assert(fv.subrange(0, fv.len() as int) =~= fv);
    }
    let fullname = match fullname_s {
        Some(Some(s)) => s,
        _ => {
            return Err(WikidotError::ParseElement(ParseElementError::SiteEle));
        },
    };
    let name = match name_s {
        Some(Some(s)) => s,
        _ => {
            return Err(WikidotError::ParseElement(ParseElementError::SiteEle));
        },
    };
    let category = match category_s {
        Some(Some(s)) => s,
        _ => {
            return Err(WikidotError::ParseElement(ParseElementError::SiteEle));
        },
    };
    let comments_count = match comments_s {
        Some(Some(v)) => v,
        _ => {
            return Err(WikidotError::ParseElement(ParseElementError::SiteEle));
        },
    };
    let children_count = match children_s {
        Some(Some(v)) => v,
        _ => {
            return Err(WikidotError::ParseElement(ParseElementError::SiteEle));
        },
    };
    let revisions_count = match revisions_s {
        Some(Some(v)) => v,
        _ => {
            return Err(WikidotError::ParseElement(ParseElementError::SiteEle));
        },
    };
    let votes_count = match votes_s {
        Some(Some(v)) => v,
        _ => {
            return Err(WikidotError::ParseElement(ParseElementError::SiteEle));
        },
    };
    let size = match size_s {
        Some(Some(v)) => v,
        _ => {
            return Err(WikidotError::ParseElement(ParseElementError::SiteEle));
        },
    };
    let rating = match rating_s {
        Some(Some(v)) => v,
        _ => {
            return Err(WikidotError::ParseElement(ParseElementError::SiteEle));
        },
    };
    let created_at = match created_at_s {
        Some(Some(Some(ts))) => ts,
        _ => {
            return Err(WikidotError::ParseElement(ParseElementError::SiteEle));
        },
    };
    let updated_at = match updated_at_s {
        Some(Some(Some(ts))) => ts,
        _ => {
            return Err(WikidotError::ParseElement(ParseElementError::SiteEle));
        },
    };
    let created_by = match created_by_s {
        Some(Some(u)) => u,
        _ => {
            return Err(WikidotError::ParseElement(ParseElementError::SiteEle));
        },
    };
    let updated_by = match updated_by_s {
        Some(Some(u)) => u,
        _ => {
            return Err(WikidotError::ParseElement(ParseElementError::SiteEle));
        },
    };
    let title = match title_s {
        Some(Some(t)) => Some(t),
        _ => None,
    };
    let parent_fullname = match parent_s {
        Some(Some(t)) => Some(t),
        _ => None,
    };
    let commented_at = match commented_at_s {
        Some(Some(o)) => o,
        _ => None,
    };
    let commented_by = match commented_by_s {
        Some(Some(u)) => Some(u),
        _ => None,
    };
    let rating_percent = if has_star {
        match percent_s {
            Some(Some(v)) => Some(v),
            _ => None,
        }
    } else {
        None
    };
    Ok(
        Page {
            id: None,
            site: site.duplicate(),
            fullname,
            name,
            category,
            title,
            children_count,
            comments_count,
            size,
            rating,
            votes_count,
            rating_percent,
            revisions_count,
            parent_fullname,
            tags,
            created_by,
            created_at,
            updated_by,
            updated_at,
            commented_by,
            commented_at,
        },
    )
}

/// Pagination completeness: each result ordinal below the full catalog size
/// falls in the window of exactly one fetch — window 0 is the first call,
/// window `k >= 1` the follow-up call with offset `k * 250`.
pub proof fn lemma_pagination_complete(page_count: int, n: int)
    requires
        1 <= page_count,
        0 <= n < page_count * 250,
    ensures
        0 <= n / 250 < page_count,
        (n / 250) * 250 <= n < (n / 250 + 1) * 250,
        forall|k: int|
            0 <= k < page_count && #[trigger] (k * 250) <= n && n < (k + 1) * 250 ==> k == n
                / 250,
{
    assert(0 <= n / 250 < page_count && (n / 250) * 250 <= n < (n / 250 + 1) * 250) by (nonlinear_arith)
        requires
            1 <= page_count,
            0 <= n < page_count * 250,
    {}
    assert forall|k: int|
        0 <= k < page_count && #[trigger] (k * 250) <= n && n < (k + 1) * 250 implies k == n
        / 250 by {
        assert(k == n / 250) by (nonlinear_arith)
            requires
                k * 250 <= n < (k + 1) * 250,
                0 <= k,
        {}
    }
}

} // verus!
