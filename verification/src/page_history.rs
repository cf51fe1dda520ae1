//! The revision listing of one page.
//!
//! The revision-list module answers with a table, one revision per row. The
//! structural extraction hands over each row's plain facts; the rules here
//! turn a row into a typed revision record. Rows arrive newest first, so
//! the last element of a revision list is the page's earliest revision.
use vstd::prelude::*;
use vstd::string::*;

use crate::error::{ParseElementError, WikidotError};
use crate::parser::{self, UserFragment};
use crate::registry::DedupRegistry;
use crate::text;
use crate::user::User;

verus! {

/// One revision: its ordinal, platform id, change-type flags, editor,
/// optional timestamp (milliseconds) and free-text comment.
#[derive(Clone, Debug)]
pub struct Revision {
    pub index: i16,
    pub id: i32,
    pub types: Vec<char>,
    pub created_by: User,
    pub created_at: Option<i64>,
    pub comment: String,
}

/// The options string of a revision-list call: each option quoted and
/// comma-terminated, the whole wrapped in braces.
pub open spec fn spec_options_string(options: Seq<String>) -> Seq<char>
    decreases options.len(),
{
    if options.len() == 0 {
        "{"@
    } else {
        spec_options_string(options.drop_last()) + "\""@ + options.last()@ + "\","@
    }
}

/// Renders the options of a revision-list call.
pub fn options_string(options: &Vec<String>) -> (r: String)
    ensures
        r@ == spec_options_string(options@) + "}"@,
{
    let mut s = String::from_str("{");
    let mut i: usize = 0;
    while i < options.len()
        invariant
            0 <= i <= options@.len(),
            s@ == spec_options_string(options@.subrange(0, i as int)),
        decreases options@.len() - i,
    {
        let ghost prefix = options@.subrange(0, i as int);
        s.append("\"");
        s.append(options[i].as_str());
        s.append("\",");
        proof {
            assert(options@.subrange(0, i + 1).drop_last() =~= prefix);
            assert(options@.subrange(0, i + 1).last() == options@[i as int]);
            assert(s@ =~= spec_options_string(options@.subrange(0, i + 1)));
        }
        i += 1;
    }
    proof {
        assert(options@.subrange(0, options@.len() as int) =~= options@);
    }
    s.append("}");
    s
}

/// The plain facts of one revision table row: the row's id attribute, and
/// the contents of the cells the rules read — the ordinal cell's text, the
/// change-flags cell's text, the editor cell's user fragment, the date
/// cell's class list, and the comment cell's text. `None` marks a cell (or
/// attribute) that the row does not have.
#[derive(Clone, Debug)]
pub struct RevisionRow {
    pub id_attr: Option<String>,
    pub index_text: Option<String>,
    pub types_text: Option<String>,
    pub editor: Option<UserFragment>,
    pub date_classes: Option<Vec<String>>,
    pub comment: Option<String>,
}

/// The timestamp an extracted date-class list denotes, bounded to what a
/// millisecond timestamp can hold.
pub open spec fn odate_val(classes: Seq<Seq<char>>) -> Option<i64> {
    match parser::spec_odate(classes) {
        None => None,
        Some(v) => if v <= i64::MAX {
            Some(v as i64)
        } else {
            None
        },
    }
}

/// The failure a revision row produces, if any: a missing id attribute or
/// an id without digits, then a malformed ordinal, then missing cells in
/// table order, and last an unresolvable editor (whose id, when the rule
/// read one, is registered before the failure surfaces).
pub open spec fn spec_row_error(row: RevisionRow) -> Option<WikidotError> {
    match row.id_attr {
        None => Some(WikidotError::ParseElement(ParseElementError::RevisionId)),
        Some(id_attr) => match text::spec_prefixed_capture(id_attr@, Seq::empty()) {
            None => Some(WikidotError::ParseElement(ParseElementError::RevisionId)),
            Some(idv) => if !(0 <= idv <= i32::MAX) {
                Some(WikidotError::ParseInt)
            } else {
                match row.index_text {
                    None => Some(WikidotError::ParseElement(ParseElementError::RevisionEle)),
                    Some(ix) => match text::spec_parse_int(text::spec_remove_dots(ix@)) {
                        None => Some(WikidotError::ParseInt),
                        Some(n) => if !(i16::MIN <= n <= i16::MAX) {
                            Some(WikidotError::ParseInt)
                        } else if row.types_text is None {
                            Some(WikidotError::ParseElement(ParseElementError::RevisionEle))
                        } else if row.editor is None {
                            Some(WikidotError::ParseElement(ParseElementError::RevisionEle))
                        } else if row.date_classes is None {
                            Some(WikidotError::ParseElement(ParseElementError::RevisionEle))
                        } else if row.comment is None {
                            Some(WikidotError::ParseElement(ParseElementError::RevisionEle))
                        } else {
                            match parser::spec_classify(row.editor->Some_0) {
                                Err(e) => Some(e),
                                Ok(_) => None,
                            }
                        },
                    },
                }
            },
        },
    }
}

/// `rev` is the revision that the error-free row `row` denotes.
pub open spec fn revision_matches(rev: Revision, row: RevisionRow) -> bool {
    &&& match row.id_attr {
        Some(id_attr) => match text::spec_prefixed_capture(id_attr@, Seq::empty()) {
            Some(idv) => rev.id == idv,
            None => false,
        },
        None => false,
    }
    &&& match row.index_text {
        Some(ix) => match text::spec_parse_int(text::spec_remove_dots(ix@)) {
            Some(n) => rev.index == n,
            None => false,
        },
        None => false,
    }
    &&& match row.types_text {
        Some(t) => rev.types@ == text::spec_letters(t@),
        None => false,
    }
    &&& match parser::spec_classify(row.editor->Some_0) {
        Ok(iv) => parser::user_matches(rev.created_by, iv),
        Err(_) => false,
    }
    &&& match row.date_classes {
        Some(cl) => rev.created_at == odate_val(cl.deep_view()),
        None => false,
    }
    &&& match row.comment {
        Some(c) => rev.comment@ == c@,
        None => false,
    }
}

/// Turns one revision table row into a revision record; the editor identity
/// goes through the dedup registry like any other user reference.
pub fn revision_from_row(row: &RevisionRow, reg: &mut DedupRegistry) -> (r: Result<
    Revision,
    WikidotError,
>)
    ensures
        final(reg).spec_known() == old(reg).spec_known(),
        final(reg).spec_pages() == old(reg).spec_pages(),
        match spec_row_error(*row) {
            Some(e) => r == Err::<Revision, _>(e),
            None => r matches Ok(rev) && revision_matches(rev, *row),
        },
{
    proof {
        reveal_strlit("");
        assert(""@ =~= Seq::<char>::empty());
    }
    let id_attr = match &row.id_attr {
        None => {
            return Err(WikidotError::ParseElement(ParseElementError::RevisionId));
        },
        Some(s) => s,
    };
    let id_bounds = match text::scan_prefixed_digits(id_attr.as_str(), "") {
        None => {
            return Err(WikidotError::ParseElement(ParseElementError::RevisionId));
        },
        Some(b) => b,
    };
    proof {
        text::lemma_dec_value_nonneg(id_attr@.subrange(id_bounds.0 as int, id_bounds.1 as int));
    }
    let id = match text::parse_digit_range(id_attr.as_str(), id_bounds.0, id_bounds.1) {
        None => {
            return Err(WikidotError::ParseInt);
        },
        Some(v) => {
            if v > i32::MAX as u64 {
                return Err(WikidotError::ParseInt);
            }
            v as i32
        },
    };
    let index_text = match &row.index_text {
        None => {
            return Err(WikidotError::ParseElement(ParseElementError::RevisionEle));
        },
        Some(s) => s,
    };
    let cleaned = text::remove_dots(index_text.as_str());
    let index = match text::parse_int_str(cleaned.as_str()) {
        None => {
            return Err(WikidotError::ParseInt);
        },
        Some(n) => {
            if n < i16::MIN as i64 || n > i16::MAX as i64 {
                return Err(WikidotError::ParseInt);
            }
            n as i16
        },
    };
    let types_text = match &row.types_text {
        None => {
            return Err(WikidotError::ParseElement(ParseElementError::RevisionEle));
        },
        Some(s) => s,
    };
    let types = text::filter_letters(types_text.as_str());
    let editor = match &row.editor {
        None => {
            return Err(WikidotError::ParseElement(ParseElementError::RevisionEle));
        },
        Some(f) => f,
    };
    let created_by = parser::printuser(editor, reg);
    let date_classes = match &row.date_classes {
        None => {
            return Err(WikidotError::ParseElement(ParseElementError::RevisionEle));
        },
        Some(cl) => cl,
    };
    let created_at = parser::odate(date_classes);
    let comment = match &row.comment {
        None => {
            return Err(WikidotError::ParseElement(ParseElementError::RevisionEle));
        },
        Some(c) => c,
    };
    let created_by = match created_by {
        Err(e) => {
            return Err(e);
        },
        Ok(u) => u,
    };
    Ok(Revision { index, id, types, created_by, created_at, comment: comment.clone() })
}

} // verus!
