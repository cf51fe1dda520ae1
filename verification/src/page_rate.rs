//! The who-voted listing: one voter identity and one signed vote per row.
use vstd::prelude::*;

use crate::error::WikidotError;
use crate::parser::{self, UserFragment};
use crate::registry::DedupRegistry;
use crate::text;
use crate::user::User;

verus! {

/// One voter and the vote they cast.
#[derive(Clone, Debug)]
pub struct RateUser {
    pub user: User,
    pub rate: i8,
}

/// The vote a vote cell's text denotes: a plus sign anywhere means an
/// up-vote, otherwise a minus sign anywhere means a down-vote, otherwise
/// the vote is neutral.
pub open spec fn spec_vote_value(text: Seq<char>) -> i8 {
    if exists|i: int| 0 <= i < text.len() && text[i] == '+' {
        1i8
    } else if exists|i: int| 0 <= i < text.len() && text[i] == '-' {
        -1i8
    } else {
        0i8
    }
}

/// Reads the vote out of a vote cell's text.
pub fn vote_value_of(text: &str) -> (r: i8)
    ensures
        r == spec_vote_value(text@),
{
    if text::contains_char(text, '+') {
        1
    } else if text::contains_char(text, '-') {
        -1
    } else {
        0
    }
}

/// Builds the vote list from the extracted (voter fragment, vote text)
/// pairs, resolving each voter through the identity rule and the dedup
/// registry. The first unresolvable voter fragment fails the whole listing.
pub fn votes_from_fragments(pairs: &Vec<(UserFragment, String)>, reg: &mut DedupRegistry) -> (r:
    Result<Vec<RateUser>, WikidotError>)
    ensures
        final(reg).spec_known() == old(reg).spec_known(),
        final(reg).spec_pages() == old(reg).spec_pages(),
        old(reg).spec_discovered().is_prefix_of(final(reg).spec_discovered()),
        match r {
            Ok(v) => v@.len() == pairs@.len() && (forall|i: int|
                0 <= i < pairs@.len() ==> (parser::spec_classify((#[trigger] pairs@[i]).0) matches
                    Ok(iv) && parser::user_matches(v@[i].user, iv) && v@[i].rate
                    == spec_vote_value(pairs@[i].1@))),
            Err(e) => exists|i: int|
                0 <= i < pairs@.len() && parser::spec_classify((#[trigger] pairs@[i]).0) == Err::<
                    parser::IdentityView,
                    WikidotError,
                >(e),
        },
{
    let mut out: Vec<RateUser> = Vec::new();
    let mut i: usize = 0;
    proof {
        lemma_prefix_reflexive(reg.spec_discovered());
    }
    while i < pairs.len()
        invariant
            0 <= i <= pairs@.len(),
            out@.len() == i,
            reg.spec_known() == old(reg).spec_known(),
            reg.spec_pages() == old(reg).spec_pages(),
            old(reg).spec_discovered().is_prefix_of(reg.spec_discovered()),
            forall|j: int|
                0 <= j < i ==> (parser::spec_classify((#[trigger] pairs@[j]).0) matches Ok(iv)
                    && parser::user_matches(out@[j].user, iv) && out@[j].rate == spec_vote_value(
                    pairs@[j].1@,
                )),
        decreases pairs@.len() - i,
    {
        let ghost disc_before = reg.spec_discovered();
        let result = parser::printuser(&pairs[i].0, reg);
        proof {
            assert(disc_before.is_prefix_of(reg.spec_discovered())) by {
                match parser::spec_observed_id(pairs@[i as int].0) {
                    Some(idv) => {
                        assert(disc_before =~= reg.spec_discovered().subrange(
                            0,
                            disc_before.len() as int,
                        ));
                    },
                    None => {
                        lemma_prefix_reflexive(reg.spec_discovered());
                    },
                }
            }
            lemma_prefix_trans(
                old(reg).spec_discovered(),
                disc_before,
                reg.spec_discovered(),
            );
        }
        let user = match result {
            Ok(u) => u,
            Err(e) => {
                return Err(e);
            },
        };
        let rate = vote_value_of(pairs[i].1.as_str());
        out.push(RateUser { user, rate });
        i += 1;
    }
    Ok(out)
}

/// A sequence is a prefix of itself.
pub proof fn lemma_prefix_reflexive(s: Seq<i32>)
    ensures
        s.is_prefix_of(s),
{
    assert(s =~= s.subrange(0, s.len() as int));
}

/// Prefix order is transitive.
pub proof fn lemma_prefix_trans(base: Seq<i32>, mid: Seq<i32>, now: Seq<i32>)
    requires
        base.is_prefix_of(mid),
        mid.is_prefix_of(now),
    ensures
        base.is_prefix_of(now),
{
    let b = base.len() as int;
    let m = mid.len() as int;
    assert(base =~= now.subrange(0, b)) by {
        assert forall|k: int| 0 <= k < b implies base[k] == now[k] by {
            assert(base[k] == mid.subrange(0, b)[k]);
            assert(mid[k] == now.subrange(0, m)[k]);
        }
    }
}

} // verus!
