//! Durable page records and their reconciliation.
//!
//! A page record is created on the first observation of a page and then
//! mutated in place on every later pass, never deleted: the rate history is
//! an append-only audit trail of vote tallies, the title, tags and comment
//! count mirror the latest snapshot, and the liveness flag is cleared — not
//! the record removed — when the page drops out of the catalog. Repeated
//! reconciliation with unchanged source data leaves the record identical.
use vstd::prelude::*;
use vstd::string::*;

use crate::error::{ParseElementError, WikidotError};
use crate::page::Page;
use crate::page_history::Revision;
use crate::page_rate::RateUser;
use crate::text;
use crate::votemap::VoteMap;

verus! {

/// One rate-history entry: a full tally, or a diff entry recording only the
/// prior votes of voters whose vote changed.
#[derive(Clone, Debug)]
pub struct MongoRateHistory {
    pub timestamp: i64,
    pub votes: VoteMap,
    pub up: i16,
    pub down: i16,
}

/// One persisted revision.
#[derive(Clone, Debug)]
pub struct MongoRevision {
    pub index: i16,
    pub id: i32,
    pub types: Vec<char>,
    pub created_by: i32,
    pub created_at: Option<i64>,
    pub comment: String,
}

/// The durable record of one page.
#[derive(Clone, Debug)]
pub struct MongoPage {
    pub id: i32,
    pub author: Vec<i32>,
    pub fullname: String,
    pub title: String,
    pub tags: Vec<String>,
    pub source: String,
    pub rate_history: Vec<MongoRateHistory>,
    pub history: Vec<MongoRevision>,
    pub comments_count: i16,
    pub status: bool,
    pub alternative: String,
}

/// Every vote mapping of the record's rate history is well formed.
pub open spec fn page_record_wf(rec: MongoPage) -> bool {
    forall|k: int|
        0 <= k < rec.rate_history@.len() ==> (#[trigger] rec.rate_history@[k]).votes.wf()
}

/// Derives the up-vote and down-vote aggregate counts of a page from its
/// total vote count `votes` and its net rating `rating`.
///
/// Every vote is -1, 0 or +1, so `votes` and `rating` have the same parity
/// and `-votes <= rating <= votes`; under that assumption the counts are
/// exactly `(votes + rating) / 2` and `(votes - rating) / 2`.
pub fn up_down(votes: i16, rating: i64) -> (r: (i16, i16))
    requires
        0 <= votes,
        -(votes as int) <= rating as int <= votes as int,
    ensures
        r.0 == (votes + rating) as int / 2,
        r.1 == (votes - rating) as int / 2,
        (votes + rating) % 2 == 0 ==> r.0 + r.1 == votes && r.0 - r.1 == rating,
{
    let v = votes as i32;
    let r = rating as i32;
    let up = (v + r) / 2;
    let down = (v - r) / 2;
    (up as i16, down as i16)
}

/// Every revision names its editor by id.
pub open spec fn revisions_ok(revs: Seq<Revision>) -> bool {
    forall|i: int| 0 <= i < revs.len() ==> (#[trigger] revs[i]).created_by.id is Some
}

/// `m` is the persisted form of the fetched revision `rev`.
pub open spec fn mongo_revision_matches(m: MongoRevision, rev: Revision) -> bool {
    &&& m.index == rev.index
    &&& m.id == rev.id
    &&& m.types@ == rev.types@
    &&& rev.created_by.id matches Some(c) && m.created_by == c
    &&& m.created_at == rev.created_at
    &&& m.comment@ == rev.comment@
}

/// Two persisted revisions with the same content.
pub open spec fn same_revision(a: MongoRevision, b: MongoRevision) -> bool {
    &&& a.index == b.index
    &&& a.id == b.id
    &&& a.types@ == b.types@
    &&& a.created_by == b.created_by
    &&& a.created_at == b.created_at
    &&& a.comment@ == b.comment@
}

fn clone_char_vec(v: &Vec<char>) -> (r: Vec<char>)
    ensures
        r@ == v@,
{
    let mut r: Vec<char> = Vec::new();
    let mut i: usize = 0;
    while i < v.len()
        invariant
            0 <= i <= v@.len(),
            r@ =~= v@.subrange(0, i as int),
        decreases v@.len() - i,
    {
        r.push(v[i]);
        proof {
            assert(r@ =~= v@.subrange(0, i + 1));
        }
        i += 1;
    }
    proof {
        assert(v@.subrange(0, v@.len() as int) =~= v@);
    }
    r
}

/// Turns fetched revisions into their persisted form. A revision whose
/// editor resolved without an id cannot be persisted: the editor column is
/// keyed by id, so such a listing is surfaced as a markup-shape failure for
/// the page rather than stored incomplete.
pub fn process_revisions(revisions: &Vec<Revision>) -> (r: Result<Vec<MongoRevision>, WikidotError>)
    ensures
        match r {
            Ok(v) => revisions_ok(revisions@) && v@.len() == revisions@.len() && (forall|i: int|
                0 <= i < revisions@.len() ==> mongo_revision_matches(
                    v@[i],
                    #[trigger] revisions@[i],
                )),
            Err(e) => !revisions_ok(revisions@) && e == WikidotError::ParseElement(
                ParseElementError::ParserId,
            ),
        },
{
    let mut out: Vec<MongoRevision> = Vec::new();
    let mut i: usize = 0;
    while i < revisions.len()
        invariant
            0 <= i <= revisions@.len(),
            out@.len() == i,
            forall|j: int|
                0 <= j < i ==> mongo_revision_matches(out@[j], #[trigger] revisions@[j]),
        decreases revisions@.len() - i,
    {
        let rev = &revisions[i];
        let created_by = match rev.created_by.id {
            None => {
                return Err(WikidotError::ParseElement(ParseElementError::ParserId));
            },
            Some(c) => c,
        };
        out.push(
            MongoRevision {
                index: rev.index,
                id: rev.id,
                types: clone_char_vec(&rev.types),
                created_by,
                created_at: rev.created_at,
                comment: rev.comment.clone(),
            },
        );
        i += 1;
    }
    Ok(out)
}

/// Every voter in the list resolved to an id.
pub open spec fn votes_ok(votes: Seq<RateUser>) -> bool {
    forall|i: int| 0 <= i < votes.len() ==> (#[trigger] votes[i]).user.id is Some
}

/// The full tally a vote list denotes: each voter's id mapped to their
/// vote, a later occurrence of the same voter winning.
pub open spec fn tally_of(votes: Seq<RateUser>) -> Map<i32, i8>
    decreases votes.len(),
{
    if votes.len() == 0 {
        Map::empty()
    } else {
        let m = tally_of(votes.drop_last());
        match votes.last().user.id {
            Some(id) => m.insert(id, votes.last().rate),
            None => m,
        }
    }
}

/// The diff a vote list produces against a prior tally: for each voter
/// whose vote changed, their prior vote; for each voter newly present, a
/// zero marking no prior vote.
pub open spec fn diff_of(last: Map<i32, i8>, votes: Seq<RateUser>) -> Map<i32, i8>
    decreases votes.len(),
{
    if votes.len() == 0 {
        Map::empty()
    } else {
        let d = diff_of(last, votes.drop_last());
        match votes.last().user.id {
            Some(id) => if last.contains_key(id) {
                if last[id] != votes.last().rate {
                    d.insert(id, last[id])
                } else {
                    d
                }
            } else {
                d.insert(id, 0)
            },
            None => d,
        }
    }
}

/// Folds a vote list into its full tally. A voter without an id cannot be
/// tallied (the tally is keyed by id), so such a list is surfaced as a
/// markup-shape failure; the platform never lists guest voters, so this
/// marks a malformed listing, not a policy choice against guests.
pub fn tally_votes(votes: &Vec<RateUser>) -> (r: Result<VoteMap, WikidotError>)
    ensures
        match r {
            Ok(t) => votes_ok(votes@) && t.wf() && t@ == tally_of(votes@),
            Err(e) => !votes_ok(votes@) && e == WikidotError::ParseElement(
                ParseElementError::ParserId,
            ),
        },
{
    let mut t = VoteMap::new();
    let mut i: usize = 0;
    proof {
        assert(votes@.subrange(0, 0).len() == 0);
    }
    while i < votes.len()
        invariant
            0 <= i <= votes@.len(),
            t.wf(),
            t@ == tally_of(votes@.subrange(0, i as int)),
            forall|j: int| 0 <= j < i ==> (#[trigger] votes@[j]).user.id is Some,
        decreases votes@.len() - i,
    {
        let ghost prefix = votes@.subrange(0, i as int);
        proof {
            assert(votes@.subrange(0, i + 1).drop_last() =~= prefix);
            assert(votes@.subrange(0, i + 1).last() == votes@[i as int]);
        }
        let id = match votes[i].user.id {
            None => {
                return Err(WikidotError::ParseElement(ParseElementError::ParserId));
            },
            Some(id) => id,
        };
        t.insert(id, votes[i].rate);
        i += 1;
    }
    proof {
        assert(votes@.subrange(0, votes@.len() as int) =~= votes@);
    }
    Ok(t)
}

/// Computes the diff of a vote list against a prior tally, together with
/// the new full tally.
pub fn vote_diff(last: &VoteMap, votes: &Vec<RateUser>) -> (r: Result<
    (VoteMap, VoteMap),
    WikidotError,
>)
    requires
        last.wf(),
    ensures
        match r {
            Ok(p) => {
                &&& votes_ok(votes@)
                &&& p.0.wf() && p.0@ == diff_of(last@, votes@)
                &&& p.1.wf() && p.1@ == tally_of(votes@)
            },
            Err(e) => !votes_ok(votes@) && e == WikidotError::ParseElement(
                ParseElementError::ParserId,
            ),
        },
{
    let mut d = VoteMap::new();
    let mut t = VoteMap::new();
    let mut i: usize = 0;
    proof {
        assert(votes@.subrange(0, 0).len() == 0);
    }
    while i < votes.len()
        invariant
            0 <= i <= votes@.len(),
            last.wf(),
            d.wf(),
            t.wf(),
            d@ == diff_of(last@, votes@.subrange(0, i as int)),
            t@ == tally_of(votes@.subrange(0, i as int)),
            forall|j: int| 0 <= j < i ==> (#[trigger] votes@[j]).user.id is Some,
        decreases votes@.len() - i,
    {
        let ghost prefix = votes@.subrange(0, i as int);
        proof {
            assert(votes@.subrange(0, i + 1).drop_last() =~= prefix);
            assert(votes@.subrange(0, i + 1).last() == votes@[i as int]);
        }
        let id = match votes[i].user.id {
            None => {
                return Err(WikidotError::ParseElement(ParseElementError::ParserId));
            },
            Some(id) => id,
        };
        let rate = votes[i].rate;
        match last.get(id) {
            Some(prior) => {
                if prior != rate {
                    d.insert(id, prior);
                }
            },
            None => {
                d.insert(id, 0);
            },
        }
        t.insert(id, rate);
        i += 1;
    }
    proof {
        assert(votes@.subrange(0, votes@.len() as int) =~= votes@);
    }
    Ok((d, t))
}

/// The lookup key of the reconciliation: a stored record matches a fresh
/// snapshot when its most recent revision's timestamp equals the snapshot's
/// last-edit timestamp and, when the snapshot's creator id is known, the
/// record's author list holds that id. Revisions are stored newest first,
/// so the most recent revision is the first element.
pub open spec fn spec_matches_page(record: MongoPage, page: Page) -> bool {
    &&& record.history@.len() > 0
    &&& record.history@[0].created_at == Some(page.updated_at)
    &&& match page.created_by.id {
        Some(c) => record.author@.contains(c),
        None => true,
    }
}

/// Whether a stored record matches a fresh snapshot under the lookup key.
pub fn matches_page(record: &MongoPage, page: &Page) -> (r: bool)
    ensures
        r == spec_matches_page(*record, *page),
{
    if record.history.len() == 0 {
        return false;
    }
    let ts_match = match record.history[0].created_at {
        Some(ts) => ts == page.updated_at,
        None => false,
    };
    if !ts_match {
        return false;
    }
    match page.created_by.id {
        None => true,
        Some(c) => {
            let mut i: usize = 0;
            while i < record.author.len()
                invariant
                    0 <= i <= record.author@.len(),
                    record.history@.len() > 0,
                    record.history@[0].created_at == Some(page.updated_at),
                    page.created_by.id == Some(c),
                    forall|j: int| 0 <= j < i ==> record.author@[j] != c,
                decreases record.author@.len() - i,
            {
                if record.author[i] == c {
                    return true;
                }
                i += 1;
            }
            false
        },
    }
}

/// Whether the revision history and source text must be fetched again: only
/// when the snapshot's last-edit timestamp differs from the stored record's
/// most recent tally timestamp (or the record has no tally at all), which
/// avoids redundant network cost when nothing changed.
pub open spec fn spec_needs_refetch(record: MongoPage, page: Page) -> bool {
    record.rate_history@.len() == 0 || record.rate_history@.last().timestamp != page.updated_at
}

/// Decides whether reconciling `page` against `record` must fetch the
/// revision history and source text again.
pub fn needs_refetch(record: &MongoPage, page: &Page) -> (r: bool)
    ensures
        r == spec_needs_refetch(*record, *page),
{
    if record.rate_history.len() == 0 {
        return true;
    }
    record.rate_history[record.rate_history.len() - 1].timestamp != page.updated_at
}

/// The title a snapshot assigns to the record: its display title, or the
/// empty string when it has none.
pub open spec fn spec_title_of(page: Page) -> Seq<char> {
    match page.title {
        Some(t) => t@,
        None => Seq::empty(),
    }
}

fn title_of(page: &Page) -> (r: String)
    ensures
        r@ == spec_title_of(*page),
{
    match &page.title {
        Some(t) => t.clone(),
        None => String::new(),
    }
}

/// What a successful first reconciliation of a new page guarantees: the
/// record carries the resolved id, an author list seeded from the creator
/// (or the earliest revision's editor when the creator is unresolved), the
/// snapshot's title, tags and comment count, the fetched source and
/// revision history, one tally entry holding the current full vote map and
/// the derived up/down counts, and the liveness flag set.
pub open spec fn creation_ok(
    page: Page,
    votes: Seq<RateUser>,
    revs: Seq<Revision>,
    source: String,
    now: i64,
    rec: MongoPage,
) -> bool {
    &&& page.id matches Some(pid) && rec.id == pid
    &&& rec.author@.len() == 1
    &&& (match page.created_by.id {
        Some(c) => rec.author@[0] == c,
        None => revs.len() > 0 && (match revs.last().created_by.id {
            Some(c) => rec.author@[0] == c,
            None => false,
        }),
    })
    &&& rec.fullname == page.fullname
    &&& rec.title@ == spec_title_of(page)
    &&& rec.tags@ == page.tags@
    &&& rec.source == source
    &&& rec.rate_history@.len() == 1
    &&& rec.rate_history@[0].timestamp == now
    &&& rec.rate_history@[0].votes@ == tally_of(votes)
    &&& rec.rate_history@[0].up == (page.votes_count + page.rating) as int / 2
    &&& rec.rate_history@[0].down == (page.votes_count - page.rating) as int / 2
    &&& rec.history@.len() == revs.len()
    &&& (forall|i: int|
        0 <= i < revs.len() ==> mongo_revision_matches(rec.history@[i], #[trigger] revs[i]))
    &&& rec.comments_count == page.comments_count
    &&& rec.status == true
    &&& rec.alternative@ == Seq::<char>::empty()
    &&& page_record_wf(rec)
}

/// What a successful merge into an existing record guarantees: the id is
/// kept, title, tags and comment count are overwritten from the snapshot,
/// liveness is forced on, the creator id is appended to the author list
/// only when new, source and history are replaced only when refetched, and
/// the rate history either stays identical (no vote changed) or grows by a
/// diff entry — which takes the place of the prior tally, carrying its
/// timestamp and counts over the changed voters' prior votes — and a fresh
/// full tally with the new timestamp and recomputed counts.
pub open spec fn merge_ok(
    old_rec: MongoPage,
    page: Page,
    votes: Seq<RateUser>,
    fetched: Option<(Vec<Revision>, String)>,
    now: i64,
    rec: MongoPage,
) -> bool {
    let last = old_rec.rate_history@.last();
    let d = diff_of(last.votes@, votes);
    let n = old_rec.rate_history@.len() as int;
    &&& old_rec.rate_history@.len() > 0
    &&& rec.id == old_rec.id
    &&& rec.fullname == page.fullname
    &&& rec.title@ == spec_title_of(page)
    &&& rec.tags@ == page.tags@
    &&& rec.comments_count == page.comments_count
    &&& rec.status == true
    &&& rec.alternative == old_rec.alternative
    &&& rec.author@ == (match page.created_by.id {
        Some(c) => if old_rec.author@.contains(c) {
            old_rec.author@
        } else {
            old_rec.author@.push(c)
        },
        None => old_rec.author@,
    })
    &&& (if spec_needs_refetch(old_rec, page) {
        fetched matches Some(f) && rec.source == f.1 && rec.history@.len() == f.0@.len() && (
        forall|i: int|
            0 <= i < f.0@.len() ==> mongo_revision_matches(rec.history@[i], #[trigger] f.0@[i]))
    } else {
        rec.source == old_rec.source && rec.history@ == old_rec.history@
    })
    &&& (if d == Map::<i32, i8>::empty() {
        rec.rate_history@ == old_rec.rate_history@
    } else {
        &&& rec.rate_history@.len() == n + 1
        &&& (forall|k: int|
            0 <= k < n - 1 ==> #[trigger] rec.rate_history@[k] == old_rec.rate_history@[k])
        &&& rec.rate_history@[n - 1].timestamp == last.timestamp
        &&& rec.rate_history@[n - 1].votes@ == d
        &&& rec.rate_history@[n - 1].up == last.up
        &&& rec.rate_history@[n - 1].down == last.down
        &&& rec.rate_history@[n].timestamp == now
        &&& rec.rate_history@[n].votes@ == tally_of(votes)
        &&& rec.rate_history@[n].up == (page.votes_count + page.rating) as int / 2
        &&& rec.rate_history@[n].down == (page.votes_count - page.rating) as int / 2
    })
    &&& page_record_wf(rec)
}

fn author_contains(author: &Vec<i32>, id: i32) -> (r: bool)
    ensures
        r == author@.contains(id),
{
    let mut i: usize = 0;
    while i < author.len()
        invariant
            0 <= i <= author@.len(),
            forall|j: int| 0 <= j < i ==> author@[j] != id,
        decreases author@.len() - i,
    {
        if author[i] == id {
            return true;
        }
        i += 1;
    }
    false
}

/// Reconciles one fresh snapshot against the store. With no prior record
/// (`old_page` is `None`) the caller has resolved the page's id and fetched
/// its revisions, votes and source text, and a brand-new record is built.
/// With a prior record, the vote list is diffed against the record's last
/// tally: when nothing changed the rate history is left untouched, which is
/// what makes repeated runs with unchanged source data idempotent;
/// otherwise a diff entry replaces the prior tally and a fresh full tally
/// is appended. Revisions and source are refetched only when the snapshot's
/// last-edit timestamp differs from the last tally's.
pub fn update_page(
    old_page: Option<MongoPage>,
    page: &Page,
    votes: &Vec<RateUser>,
    fetched: Option<(Vec<Revision>, String)>,
    now: i64,
) -> (r: Result<MongoPage, WikidotError>)
    requires
        0 <= page.votes_count,
        -(page.votes_count as int) <= page.rating as int <= page.votes_count as int,
        old_page matches Some(rec) ==> page_record_wf(rec),
        old_page is None ==> page.id is Some && fetched is Some,
        (old_page matches Some(rec) && spec_needs_refetch(rec, *page)) ==> fetched is Some,
    ensures
        match old_page {
            None => match r {
                Ok(rec) => votes_ok(votes@) && (fetched matches Some(f) && revisions_ok(f.0@)
                    && creation_ok(*page, votes@, f.0@, f.1, now, rec)),
                Err(e) => if !votes_ok(votes@) {
                    e == WikidotError::ParseElement(ParseElementError::ParserId)
                } else if fetched matches Some(f) && !revisions_ok(f.0@) {
                    e == WikidotError::ParseElement(ParseElementError::ParserId)
                } else {
                    (fetched matches Some(f) && f.0@.len() == 0) && page.created_by.id is None
                        && e == WikidotError::ParseElement(ParseElementError::RevisionEle)
                },
            },
            Some(rec) => match r {
                Ok(out) => votes_ok(votes@) && merge_ok(rec, *page, votes@, fetched, now, out),
                Err(e) => if spec_needs_refetch(rec, *page) && (fetched matches Some(f)
                    && !revisions_ok(f.0@)) {
                    e == WikidotError::ParseElement(ParseElementError::ParserId)
                } else if rec.rate_history@.len() == 0 {
                    e == WikidotError::ParseElement(ParseElementError::MongoEle)
                } else {
                    !votes_ok(votes@) && e == WikidotError::ParseElement(
                        ParseElementError::ParserId,
                    )
                },
            },
        },
{
    match old_page {
        None => {
            let (revs, source) = match fetched {
                Some(p) => p,
                None => {
                    proof {
                        assert(false);
                    }
                    return Err(WikidotError::Persistence);
                },
            };
            let tally = match tally_votes(votes) {
                Err(e) => {
                    return Err(e);
                },
                Ok(t) => t,
            };
            let history = match process_revisions(&revs) {
                Err(e) => {
                    return Err(e);
                },
                Ok(h) => h,
            };
            let author0: i32 = match page.created_by.id {
                Some(c) => c,
                None => {
                    if revs.len() == 0 {
                        return Err(WikidotError::ParseElement(ParseElementError::RevisionEle));
                    }
                    match revs[revs.len() - 1].created_by.id {
                        Some(c) => c,
                        None => {
                            proof {
                                assert(revs@[revs@.len() - 1].created_by.id is Some);
                            }
                            return Err(WikidotError::ParseElement(ParseElementError::ParserId));
                        },
                    }
                },
            };
            let mut author: Vec<i32> = Vec::new();
            author.push(author0);
            let counts = up_down(page.votes_count, page.rating);
            let mut rate_history: Vec<MongoRateHistory> = Vec::new();
            rate_history.push(
                MongoRateHistory { timestamp: now, votes: tally, up: counts.0, down: counts.1 },
            );
            let id = match page.id {
                Some(i) => i,
                None => {
                    proof {
                        assert(false);
                    }
                    return Err(WikidotError::Persistence);
                },
            };
            Ok(
                MongoPage {
                    id,
                    author,
                    fullname: page.fullname.clone(),
                    title: title_of(page),
                    tags: text::clone_string_vec(&page.tags),
                    source,
                    rate_history,
                    history,
                    comments_count: page.comments_count,
                    status: true,
                    alternative: String::new(),
                },
            )
        },
        Some(mut rec) => {
            let ghost rec0 = rec;
            let refetch = needs_refetch(&rec, page);
            if refetch {
                let (revs, src) = match fetched {
                    Some(p) => p,
                    None => {
                        proof {
                            assert(false);
                        }
                        return Err(WikidotError::Persistence);
                    },
                };
                let processed = match process_revisions(&revs) {
                    Err(e) => {
                        return Err(e);
                    },
                    Ok(h) => h,
                };
                rec.source = src;
                rec.history = processed;
            }
            let last = match rec.rate_history.pop() {
                None => {
                    return Err(WikidotError::ParseElement(ParseElementError::MongoEle));
                },
                Some(l) => l,
            };
            proof {
                assert(rec0.rate_history@[rec0.rate_history@.len() - 1].votes.wf());
            }
            let pair = match vote_diff(&last.votes, votes) {
                Err(e) => {
                    return Err(e);
                },
                Ok(p) => p,
            };
            let (d, t) = pair;
            let ghost n = rec0.rate_history@.len() as int;
            if d.is_empty() {
                rec.rate_history.push(last);
                proof {
                    assert(rec.rate_history@ =~= rec0.rate_history@);
                }
            } else {
                let counts = up_down(page.votes_count, page.rating);
                rec.rate_history.push(
                    MongoRateHistory {
                        timestamp: last.timestamp,
                        votes: d,
                        up: last.up,
                        down: last.down,
                    },
                );
                rec.rate_history.push(
                    MongoRateHistory { timestamp: now, votes: t, up: counts.0, down: counts.1 },
                );
            }
            match page.created_by.id {
                Some(c) => {
                    if !author_contains(&rec.author, c) {
                        rec.author.push(c);
                    }
                },
                None => {},
            }
            let out = MongoPage {
                id: rec.id,
                author: rec.author,
                fullname: page.fullname.clone(),
                title: title_of(page),
                tags: text::clone_string_vec(&page.tags),
                source: rec.source,
                rate_history: rec.rate_history,
                history: rec.history,
                comments_count: page.comments_count,
                status: true,
                alternative: rec.alternative,
            };
            proof {
                assert(page_record_wf(out)) by {
                    assert forall|k: int|
                        0 <= k < out.rate_history@.len() implies (
                    #[trigger] out.rate_history@[k]).votes.wf() by {
                        if k < n - 1 {
                            assert(out.rate_history@[k] == rec0.rate_history@[k]);
                            assert(rec0.rate_history@[k].votes.wf());
                        }
                    }
                }
            }
            Ok(out)
        },
    }
}

/// Marks every record whose id the pass did not observe as no longer live;
/// records whose id is in the live set keep their flag, and nothing else
/// about any record changes.
pub fn apply_liveness(records: Vec<MongoPage>, live: &Vec<i32>) -> (r: Vec<MongoPage>)
    ensures
        r@.len() == records@.len(),
        forall|i: int|
            0 <= i < records@.len() ==> #[trigger] r@[i] == (MongoPage {
                status: records@[i].status && live@.contains(records@[i].id),
                ..records@[i]
            }),
{
    let ghost orig = records@;
    let mut input = records;
    let mut backwards: Vec<MongoPage> = Vec::new();
    while input.len() > 0
        invariant
            input@ =~= orig.subrange(0, input@.len() as int),
            input@.len() + backwards@.len() == orig.len(),
            forall|j: int|
                0 <= j < backwards@.len() ==> #[trigger] backwards@[j] == (MongoPage {
                    status: orig[orig.len() - 1 - j].status && live@.contains(
                        orig[orig.len() - 1 - j].id,
                    ),
                    ..orig[orig.len() - 1 - j]
                }),
        decreases input@.len(),
    {
        let rec = input.pop().unwrap();
        let live_now = rec.status && author_contains(live, rec.id);
        backwards.push(MongoPage { status: live_now, ..rec });
        proof {
            assert(input@ =~= orig.subrange(0, input@.len() as int));
        }
    }
    let mut out: Vec<MongoPage> = Vec::new();
    while backwards.len() > 0
        invariant
            out@.len() + backwards@.len() == orig.len(),
            forall|j: int|
                0 <= j < backwards@.len() ==> #[trigger] backwards@[j] == (MongoPage {
                    status: orig[orig.len() - 1 - j].status && live@.contains(
                        orig[orig.len() - 1 - j].id,
                    ),
                    ..orig[orig.len() - 1 - j]
                }),
            forall|j: int|
                0 <= j < out@.len() ==> #[trigger] out@[j] == (MongoPage {
                    status: orig[j].status && live@.contains(orig[j].id),
                    ..orig[j]
                }),
        decreases backwards@.len(),
    {
        let rec = backwards.pop().unwrap();
        out.push(rec);
    }
    out
}

/// The alternate-title pair an index list item denotes: the page path is the
/// item's link address without its leading slash, the alternate title the
/// item's trimmed text. An item whose link address is empty carries no pair.
pub fn alt_title_entry(href: &str, text_content: &str) -> (r: Option<(String, String)>)
    ensures
        match r {
            Some(p) => href@.len() >= 1 && p.0@ == href@.subrange(1, href@.len() as int) && p.1@
                == text::spec_trim(text_content@),
            None => href@.len() == 0,
        },
{
    let n = href.unicode_len();
    if n == 0 {
        return None;
    }
    let fullname = href.substring_char(1, n).to_owned();
    let alt = text::trim_str(text_content);
    Some((fullname, alt))
}

/// No voter occurs twice in the list.
pub open spec fn distinct_voters(votes: Seq<RateUser>) -> bool {
    forall|p: int, q: int|
        0 <= p < q < votes.len() ==> (#[trigger] votes[p]).user.id != (#[trigger] votes[q]).user.id
}

/// In a list of distinct resolved voters, the tally maps each voter to
/// exactly the vote they cast.
pub proof fn lemma_tally_get(votes: Seq<RateUser>, j: int)
    requires
        votes_ok(votes),
        distinct_voters(votes),
        0 <= j < votes.len(),
    ensures
        votes[j].user.id matches Some(id) && tally_of(votes).contains_key(id) && tally_of(votes)[id]
            == votes[j].rate,
    decreases votes.len(),
{
    let t = votes.drop_last();
    assert(forall|p: int| 0 <= p < t.len() ==> t[p] == votes[p]);
    if j == votes.len() - 1 {
    } else {
        lemma_tally_get(t, j);
        assert(votes[j].user.id != votes.last().user.id);
    }
}

/// Diffing a vote list against its own tally records nothing: every voter
/// is present with an unchanged vote.
pub proof fn lemma_diff_self(m: Map<i32, i8>, votes: Seq<RateUser>)
    requires
        votes_ok(votes),
        forall|j: int|
            0 <= j < votes.len() ==> ((#[trigger] votes[j]).user.id matches Some(id)
                && m.contains_key(id) && m[id] == votes[j].rate),
    ensures
        diff_of(m, votes) == Map::<i32, i8>::empty(),
    decreases votes.len(),
{
    if votes.len() > 0 {
        let t = votes.drop_last();
        assert(forall|p: int| 0 <= p < t.len() ==> t[p] == votes[p]);
        lemma_diff_self(m, t);
        assert(votes[votes.len() - 1].user.id matches Some(id) && m.contains_key(id) && m[id]
            == votes.last().rate);
    }
}

/// Vote-diff correctness on the specified configuration: against a prior
/// tally `{a: +1, b: -1}`, the vote list `[a: +1, b: +1, c: -1]` produces
/// the diff `{b: -1, c: 0}` and the tally `{a: +1, b: +1, c: -1}`.
pub proof fn lemma_vote_diff_example(va: RateUser, vb: RateUser, vc: RateUser, a: i32, b: i32, c: i32)
    requires
        a != b && a != c && b != c,
        va.user.id == Some(a) && va.rate == 1i8,
        vb.user.id == Some(b) && vb.rate == 1i8,
        vc.user.id == Some(c) && vc.rate == -1i8,
    ensures
        diff_of(map![a => 1i8, b => -1i8], seq![va, vb, vc]) =~= map![b => -1i8, c => 0i8],
        tally_of(seq![va, vb, vc]) =~= map![a => 1i8, b => 1i8, c => -1i8],
{
    let s = seq![va, vb, vc];
    let s2 = s.drop_last();
    let s1 = s2.drop_last();
    let s0 = s1.drop_last();
    assert(s2 =~= seq![va, vb]);
    assert(s1 =~= seq![va]);
    assert(s0 =~= Seq::<RateUser>::empty());
    let prior = map![a => 1i8, b => -1i8];
    assert(diff_of(prior, s0) == Map::<i32, i8>::empty());
    assert(diff_of(prior, s1) =~= Map::<i32, i8>::empty()) by {
        assert(prior.contains_key(a) && prior[a] == 1i8);
    }
    assert(diff_of(prior, s2) =~= map![b => -1i8]) by {
        assert(prior.contains_key(b) && prior[b] == -1i8);
    }
    assert(diff_of(prior, s) =~= map![b => -1i8, c => 0i8]) by {
        assert(!prior.contains_key(c));
    }
    assert(tally_of(s0) == Map::<i32, i8>::empty());
    assert(tally_of(s1) =~= map![a => 1i8]);
    assert(tally_of(s2) =~= map![a => 1i8, b => 1i8]);
    assert(tally_of(s) =~= map![a => 1i8, b => 1i8, c => -1i8]);
}

/// Idempotence of page reconciliation: a second merge of the same snapshot
/// and the same vote list into the record the first reconciliation wrote
/// leaves every field of the record with identical content — in particular,
/// no new rate-history entry appears. The one assumption on the vote list
/// is that no voter occurs twice, which the platform's per-user vote
/// listing guarantees.
pub proof fn lemma_page_idempotent(
    rec1: MongoPage,
    page: Page,
    votes: Seq<RateUser>,
    fetched2: Option<(Vec<Revision>, String)>,
    now2: i64,
    rec2: MongoPage,
)
    requires
        votes_ok(votes),
        distinct_voters(votes),
        // What the first reconciliation guaranteed of its output:
        rec1.fullname == page.fullname,
        rec1.title@ == spec_title_of(page),
        rec1.tags@ == page.tags@,
        rec1.comments_count == page.comments_count,
        rec1.status == true,
        page.created_by.id matches Some(c) ==> rec1.author@.contains(c),
        rec1.rate_history@.len() > 0,
        rec1.rate_history@.last().votes@ == tally_of(votes),
        // Unchanged source data: when the second run refetches, it fetches
        // revisions and source text with the very content the record holds.
        spec_needs_refetch(rec1, page) ==> (fetched2 matches Some(f) && f.0@.len()
            == rec1.history@.len() && (forall|i: int|
            0 <= i < f.0@.len() ==> mongo_revision_matches(
                rec1.history@[i],
                #[trigger] f.0@[i],
            )) && f.1@ == rec1.source@),
        // The second reconciliation's outcome:
        merge_ok(rec1, page, votes, fetched2, now2, rec2),
    ensures
        rec2.id == rec1.id,
        rec2.author@ == rec1.author@,
        rec2.fullname == rec1.fullname,
        rec2.title@ == rec1.title@,
        rec2.tags@ == rec1.tags@,
        rec2.comments_count == rec1.comments_count,
        rec2.status == rec1.status,
        rec2.alternative == rec1.alternative,
        rec2.source@ == rec1.source@,
        rec2.rate_history@ == rec1.rate_history@,
        rec2.history@.len() == rec1.history@.len(),
        forall|i: int|
            0 <= i < rec1.history@.len() ==> same_revision(
                #[trigger] rec2.history@[i],
                rec1.history@[i],
            ),
{
    let m = rec1.rate_history@.last().votes@;
    assert(diff_of(m, votes) == Map::<i32, i8>::empty()) by {
        assert forall|j: int|
            0 <= j < votes.len() implies ((#[trigger] votes[j]).user.id matches Some(id)
            && m.contains_key(id) && m[id] == votes[j].rate) by {
            lemma_tally_get(votes, j);
        }
        lemma_diff_self(m, votes);
    }
    if spec_needs_refetch(rec1, page) {
        let f = fetched2->Some_0;
        assert forall|i: int|
            0 <= i < rec1.history@.len() implies same_revision(
            #[trigger] rec2.history@[i],
            rec1.history@[i],
        ) by {
            assert(mongo_revision_matches(rec2.history@[i], f.0@[i]));
            assert(mongo_revision_matches(rec1.history@[i], f.0@[i]));
        }
    }
}

/// The id of the platform's own attribution bot, whose listings do not name
/// a page author.
pub open spec fn attribution_bot_id() -> i32 {
    8528464
}

/// Decides what an attribution-metadata row contributes: the resolved
/// author id to append, or nothing when the row has no author name, the
/// reference did not resolve to an id, or the id is the attribution bot's.
pub fn attribution_action(user_name: &str, resolved_id: Option<i32>) -> (r: Option<i32>)
    ensures
        match r {
            Some(id) => user_name@.len() > 0 && resolved_id == Some(id) && id
                != attribution_bot_id(),
            None => user_name@.len() == 0 || resolved_id is None || resolved_id == Some(
                attribution_bot_id(),
            ),
        },
{
    if user_name.unicode_len() == 0 {
        return None;
    }
    match resolved_id {
        None => None,
        Some(id) => {
            if id == 8528464 {
                None
            } else {
                Some(id)
            }
        },
    }
}

} // verus!
