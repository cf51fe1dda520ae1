//! Durable user records and their reconciliation.
//!
//! A user record is created on the first observation of an identity and
//! then only ever extended: title, avatar and karma carry append-only
//! histories. The karma history is monotonic — a fetched level only ever
//! appends when it exceeds the recorded maximum, so the sequence of levels
//! never decreases however many reconciliations run.
use vstd::prelude::*;
use vstd::string::*;

use crate::error::{ParseElementError, WikidotError};
use crate::user::UserProperty;

verus! {

/// One karma-history entry: the level reached and when it was recorded.
#[derive(Clone, Copy, PartialEq, Eq, Structural, Debug)]
pub struct MongoKarma {
    pub level: i8,
    pub timestamp: i64,
}

/// One avatar-history entry.
#[derive(Clone, Debug)]
pub struct MongoAvatar {
    pub image: String,
    pub timestamp: i64,
}

/// The durable record of one user.
#[derive(Clone, Debug)]
pub struct MongoUser {
    pub id: i32,
    pub join: i64,
    pub title: Vec<String>,
    pub avatar: Vec<MongoAvatar>,
    pub karma: Vec<MongoKarma>,
    pub account_type: String,
}

/// The karma history never decreases in level.
pub open spec fn karma_monotonic(karma: Seq<MongoKarma>) -> bool {
    forall|i: int, j: int|
        0 <= i <= j < karma.len() ==> (#[trigger] karma[i]).level <= (#[trigger] karma[j]).level
}

fn clone_avatar_vec(v: &Vec<MongoAvatar>) -> (r: Vec<MongoAvatar>)
    ensures
        r@ == v@,
{
    let mut r: Vec<MongoAvatar> = Vec::new();
    let mut i: usize = 0;
    while i < v.len()
        invariant
            0 <= i <= v@.len(),
            r@ =~= v@.subrange(0, i as int),
        decreases v@.len() - i,
    {
        r.push(MongoAvatar { image: v[i].image.clone(), timestamp: v[i].timestamp });
        proof {
            assert(v@[i as int] == (MongoAvatar {
                image: v@[i as int].image,
                timestamp: v@[i as int].timestamp,
            }));
            assert(r@ =~= v@.subrange(0, i + 1));
        }
        i += 1;
    }
    proof {
        assert(v@.subrange(0, v@.len() as int) =~= v@);
    }
    r
}

fn clone_karma_vec(v: &Vec<MongoKarma>) -> (r: Vec<MongoKarma>)
    ensures
        r@ == v@,
{
    let mut r: Vec<MongoKarma> = Vec::new();
    let mut i: usize = 0;
    while i < v.len()
        invariant
            0 <= i <= v@.len(),
            r@ =~= v@.subrange(0, i as int),
        decreases v@.len() - i,
    {
        r.push(v[i]);
        proof {
            assert(r@ =~= v@.subrange(0, i + 1));
        }
        i += 1;
    }
    proof {
        assert(v@.subrange(0, v@.len() as int) =~= v@);
    }
    r
}

/// Whether a fetched title extends the title history: it must differ from
/// the last recorded title and must not be empty.
pub open spec fn title_appends(title: Seq<String>, fetched: Seq<char>) -> bool {
    title.last()@ != fetched && fetched.len() > 0
}

/// Whether a fetched avatar extends the avatar history.
pub open spec fn avatar_appends(avatar: Seq<MongoAvatar>, fetched: Seq<char>) -> bool {
    avatar.last().image@ != fetched
}

/// Whether a fetched karma level extends the karma history: only a level
/// above the last recorded one appends.
pub open spec fn karma_appends(karma: Seq<MongoKarma>, fetched: i8) -> bool {
    karma.last().level < fetched
}

/// Reconciles an existing user record against a fetched snapshot: the title
/// history grows only on a real, non-empty change; the avatar history only
/// on a change; the karma history only on an increase; the join timestamp
/// and account-type label are always overwritten. A record with an empty
/// history vector has lost its seed entry and is a shape failure.
pub fn update_user(history: &MongoUser, user: &UserProperty, now: i64) -> (r: Result<
    MongoUser,
    WikidotError,
>)
    ensures
        match r {
            Err(e) => e == WikidotError::ParseElement(ParseElementError::MongoEle) && (
            history.title@.len() == 0 || history.avatar@.len() == 0 || history.karma@.len() == 0),
            Ok(u) => {
                &&& history.title@.len() > 0 && history.avatar@.len() > 0 && history.karma@.len()
                    > 0
                &&& u.id == history.id
                &&& u.join == user.since
                &&& u.account_type == user.account_type
                &&& u.title@ == if title_appends(history.title@, user.title@) {
                    history.title@.push(user.title)
                } else {
                    history.title@
                }
                &&& u.avatar@ == if avatar_appends(history.avatar@, user.avatar@) {
                    history.avatar@.push((MongoAvatar { image: user.avatar, timestamp: now }))
                } else {
                    history.avatar@
                }
                &&& u.karma@ == if karma_appends(history.karma@, user.karma) {
                    history.karma@.push((MongoKarma { level: user.karma, timestamp: now }))
                } else {
                    history.karma@
                }
            },
        },
        r matches Ok(u) ==> (karma_monotonic(history.karma@) ==> karma_monotonic(u.karma@)),
{
    if history.title.len() == 0 || history.avatar.len() == 0 || history.karma.len() == 0 {
        return Err(WikidotError::ParseElement(ParseElementError::MongoEle));
    }
    let mut title = crate::text::clone_string_vec(&history.title);
    let last_title = &history.title[history.title.len() - 1];
    if !text_eq_string(last_title, &user.title) && user.title.unicode_len() > 0 {
        title.push(user.title.clone());
    }
    let mut avatar = clone_avatar_vec(&history.avatar);
    let last_avatar = &history.avatar[history.avatar.len() - 1];
    if !text_eq_string(&last_avatar.image, &user.avatar) {
        avatar.push(MongoAvatar { image: user.avatar.clone(), timestamp: now });
    }
    let mut karma = clone_karma_vec(&history.karma);
    let last_karma = history.karma[history.karma.len() - 1];
    if last_karma.level < user.karma {
        karma.push(MongoKarma { level: user.karma, timestamp: now });
    }
    let u = MongoUser {
        id: history.id,
        join: user.since,
        title,
        avatar,
        karma,
        account_type: user.account_type.clone(),
    };
    proof {
        if karma_monotonic(history.karma@) && karma_appends(history.karma@, user.karma) {
            assert(karma_monotonic(u.karma@)) by {
                assert(forall|i: int|
                    0 <= i < history.karma@.len() ==> (#[trigger] u.karma@[i]) == history.karma@[i]);
                assert(u.karma@.last().level == user.karma);
            }
        }
    }
    Ok(u)
}

/// String equality through views.
fn text_eq_string(a: &String, b: &String) -> (r: bool)
    ensures
        r == (a@ == b@),
{
    crate::text::str_eq(a.as_str(), b.as_str())
}

/// A brand-new user record, seeded with single-element histories.
pub fn add_user(user_id: i32, user: &UserProperty, now: i64) -> (r: MongoUser)
    ensures
        r.id == user_id,
        r.join == user.since,
        r.account_type == user.account_type,
        r.title@ =~= seq![user.title],
        r.avatar@ =~= seq![(MongoAvatar { image: user.avatar, timestamp: now })],
        r.karma@ =~= seq![(MongoKarma { level: user.karma, timestamp: now })],
        karma_monotonic(r.karma@),
{
    let mut title: Vec<String> = Vec::new();
    title.push(user.title.clone());
    let mut avatar: Vec<MongoAvatar> = Vec::new();
    avatar.push(MongoAvatar { image: user.avatar.clone(), timestamp: now });
    let mut karma: Vec<MongoKarma> = Vec::new();
    karma.push(MongoKarma { level: user.karma, timestamp: now });
    MongoUser {
        id: user_id,
        join: user.since,
        title,
        avatar,
        karma,
        account_type: user.account_type.clone(),
    }
}

/// The karma history after any number of reconciliations, each fetching one
/// level at one time.
pub open spec fn karma_after(karma: Seq<MongoKarma>, fetched: Seq<(i8, i64)>) -> Seq<MongoKarma>
    decreases fetched.len(),
{
    if fetched.len() == 0 {
        karma
    } else {
        let k = karma_after(karma, fetched.drop_last());
        if k.len() > 0 && k.last().level < fetched.last().0 {
            k.push(MongoKarma { level: fetched.last().0, timestamp: fetched.last().1 })
        } else {
            k
        }
    }
}

/// Karma monotonicity: across any number of reconciliations with arbitrary
/// fetched levels, the karma history stays non-decreasing, and a fetched
/// level at or below the recorded maximum never appends.
pub proof fn lemma_karma_monotonic(karma: Seq<MongoKarma>, fetched: Seq<(i8, i64)>)
    requires
        karma_monotonic(karma),
    ensures
        karma_monotonic(karma_after(karma, fetched)),
        karma_after(karma, fetched).len() >= karma.len(),
    decreases fetched.len(),
{
    if fetched.len() > 0 {
        lemma_karma_monotonic(karma, fetched.drop_last());
        let k = karma_after(karma, fetched.drop_last());
        if k.len() > 0 && k.last().level < fetched.last().0 {
            let k2 = karma_after(karma, fetched);
            assert(forall|i: int| 0 <= i < k.len() ==> (#[trigger] k2[i]) == k[i]);
            assert(k2.last().level == fetched.last().0);
        }
    }
}

} // verus!
