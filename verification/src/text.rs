//! Verified text scanning.
//!
//! The platform embeds the values this service needs inside plain documents:
//! numeric ids behind an inline script marker, a total-page indicator of the
//! form "of N", a timestamp inside a `time_<seconds>` class name. This module
//! holds the character-level scanners those grammars need, together with the
//! numeric conversions used throughout the catalog parser.
use vstd::prelude::*;
use vstd::string::*;

verus! {

/// `c` is a decimal digit.
pub open spec fn is_digit(c: char) -> bool {
    48 <= c as int <= 57
}

/// Numeric value of a digit character.
pub open spec fn digit_val(c: char) -> int {
    c as int - 48
}

/// Every character of `s` is a decimal digit.
pub open spec fn all_digits(s: Seq<char>) -> bool {
    forall|i: int| 0 <= i < s.len() ==> is_digit(#[trigger] s[i])
}

/// The number denoted by a digit string, most significant digit first.
pub open spec fn dec_value(s: Seq<char>) -> int
    decreases s.len(),
{
    if s.len() == 0 {
        0
    } else {
        10 * dec_value(s.drop_last()) + digit_val(s.last())
    }
}

pub proof fn lemma_dec_value_nonneg(s: Seq<char>)
    requires
        all_digits(s),
    ensures
        dec_value(s) >= 0,
    decreases s.len(),
{
    if s.len() > 0 {
        assert(all_digits(s.drop_last())) by {
            assert(forall|i: int| 0 <= i < s.len() - 1 ==> s.drop_last()[i] == s[i]);
        }
        lemma_dec_value_nonneg(s.drop_last());
    }
}

/// A digit string denotes at least as much as any of its prefixes.
pub proof fn lemma_dec_value_prefix(s: Seq<char>, k: int)
    requires
        all_digits(s),
        0 <= k <= s.len(),
    ensures
        dec_value(s.subrange(0, k)) <= dec_value(s),
    decreases s.len(),
{
    if k == s.len() {
        assert(s.subrange(0, k) =~= s);
    } else {
        let t = s.drop_last();
        assert(all_digits(t) && s.subrange(0, k) =~= t.subrange(0, k)) by {
            assert(forall|i: int| 0 <= i < t.len() ==> t[i] == s[i]);
        }
        lemma_dec_value_prefix(t, k);
        lemma_dec_value_nonneg(t);
        assert(is_digit(s.last()));
    }
}

/// Exec test for a decimal digit.
pub fn is_digit_char(c: char) -> (r: bool)
    ensures
        r == is_digit(c),
{
    let u = c as u32;
    48 <= u && u <= 57
}

/// The pattern `p` occurs in `t` starting at position `i`.
pub open spec fn match_at(t: Seq<char>, p: Seq<char>, i: int) -> bool {
    0 <= i && i + p.len() <= t.len() && t.subrange(i, i + p.len()) == p
}

/// Whether `pat` occurs in `text` at exactly position `i`.
fn match_here(text: &str, pat: &str, i: usize) -> (r: bool)
    requires
        i + pat@.len() <= text@.len() <= usize::MAX,
    ensures
        r == match_at(text@, pat@, i as int),
{
    let m = pat.unicode_len();
    let mut k: usize = 0;
    while k < m
        invariant
            0 <= k <= m,
            m == pat@.len(),
            i + m <= text@.len() <= usize::MAX,
            forall|q: int| 0 <= q < k ==> text@[i + q] == pat@[q],
        decreases m - k,
    {
        if text.get_char(i + k) != pat.get_char(k) {
            assert(!match_at(text@, pat@, i as int)) by {
                if text@.subrange(i as int, i + m) == pat@ {
                    assert(text@.subrange(i as int, i + m)[k as int] == pat@[k as int]);
                }
            }
            return false;
        }
        k += 1;
    }
    assert(text@.subrange(i as int, i + m) =~= pat@);
    true
}

/// First occurrence of `pat` in `text` at or after position `from`.
pub fn find_sub_from(text: &str, pat: &str, from: usize) -> (r: Option<usize>)
    ensures
        match r {
            Some(i) => from <= i && match_at(text@, pat@, i as int) && (forall|j: int|
                from <= j < i ==> !match_at(text@, pat@, j)),
            None => forall|j: int| from <= j ==> !match_at(text@, pat@, j),
        },
{
    let n = text.unicode_len();
    let m = pat.unicode_len();
    if m > n || from > n - m {
        assert(forall|j: int| from <= j ==> !match_at(text@, pat@, j));
        return None;
    }
    if m == 0 {
        assert(match_at(text@, pat@, from as int)) by {
            assert(text@.subrange(from as int, from as int) =~= pat@);
        }
        return Some(from);
    }
    let mut i = from;
    while i <= n - m
        invariant
            from <= i <= n - m + 1,
            1 <= m <= n,
            n == text@.len(),
            m == pat@.len(),
            forall|j: int| from <= j < i ==> !match_at(text@, pat@, j),
        decreases n - m + 1 - i,
    {
        if match_here(text, pat, i) {
            return Some(i);
        }
        i += 1;
    }
    assert(forall|j: int| from <= j ==> !match_at(text@, pat@, j)) by {
        assert(forall|j: int| j > n - m ==> !match_at(text@, pat@, j));
    }
    None
}

/// First occurrence of `pat` anywhere in `text`.
pub fn find_sub(text: &str, pat: &str) -> (r: Option<usize>)
    ensures
        match r {
            Some(i) => match_at(text@, pat@, i as int) && (forall|j: int|
                0 <= j < i ==> !match_at(text@, pat@, j)),
            None => forall|j: int| !match_at(text@, pat@, j),
        },
{
    let r = find_sub_from(text, pat, 0);
    match r {
        Some(i) => Some(i),
        None => None,
    }
}

/// The two strings hold the same characters.
pub fn str_eq(a: &str, b: &str) -> (r: bool)
    ensures
        r == (a@ == b@),
{
    let n = a.unicode_len();
    let m = b.unicode_len();
    if n != m {
        return false;
    }
    let r = match_here(a, b, 0);
    proof {
        assert(a@.subrange(0, a@.len() as int) =~= a@);
    }
    r
}

/// `text` begins with `pat`.
pub fn starts_with(text: &str, pat: &str) -> (r: bool)
    ensures
        r == (pat@.len() <= text@.len() && text@.subrange(0, pat@.len() as int) == pat@),
{
    let n = text.unicode_len();
    let m = pat.unicode_len();
    if m > n {
        return false;
    }
    match_here(text, pat, 0)
}

/// `text` holds the character `c` somewhere.
pub fn contains_char(text: &str, c: char) -> (r: bool)
    ensures
        r == (exists|i: int| 0 <= i < text@.len() && text@[i] == c),
{
    let n = text.unicode_len();
    let mut i: usize = 0;
    while i < n
        invariant
            0 <= i <= n,
            n == text@.len(),
            forall|j: int| 0 <= j < i ==> text@[j] != c,
        decreases n - i,
    {
        if text.get_char(i) == c {
            return true;
        }
        i += 1;
    }
    false
}

/// End of the digit run that starts at `a`: the first position at or after
/// `a` that does not hold a digit.
pub open spec fn spec_run_end(t: Seq<char>, a: int) -> int
    decreases t.len() - a,
{
    if a < t.len() && is_digit(t[a]) {
        spec_run_end(t, a + 1)
    } else {
        a
    }
}

/// `spec_run_end` is where the digits stop.
pub proof fn lemma_run_end(t: Seq<char>, a: int, j: int)
    requires
        0 <= a <= j <= t.len(),
        forall|q: int| a <= q < j ==> is_digit(#[trigger] t[q]),
        j < t.len() ==> !is_digit(t[j]),
    ensures
        spec_run_end(t, a) == j,
    decreases j - a,
{
    if a < j {
        lemma_run_end(t, a + 1, j);
    }
}

/// End of the digit run that starts at `from`: the first position at or
/// after `from` that does not hold a digit.
pub fn digit_run_end(text: &str, from: usize) -> (j: usize)
    requires
        from <= text@.len(),
    ensures
        from <= j <= text@.len(),
        all_digits(text@.subrange(from as int, j as int)),
        j < text@.len() ==> !is_digit(text@[j as int]),
        j == spec_run_end(text@, from as int),
{
    let n = text.unicode_len();
    let mut j = from;
    while j < n
        invariant
            from <= j <= n,
            n == text@.len(),
            forall|q: int| from <= q < j ==> is_digit(#[trigger] text@[q]),
        decreases n - j,
    {
        if !is_digit_char(text.get_char(j)) {
            proof {
                assert(all_digits(text@.subrange(from as int, j as int)));
                lemma_run_end(text@, from as int, j as int);
            }
            return j;
        }
        j += 1;
    }
    proof {
        assert(all_digits(text@.subrange(from as int, j as int)));
        lemma_run_end(text@, from as int, j as int);
    }
    j
}

/// Value of the digit run `text[from..to]`, or `None` if it does not fit
/// in a `u64`.
pub fn parse_digit_range(text: &str, from: usize, to: usize) -> (r: Option<u64>)
    requires
        from <= to <= text@.len(),
        all_digits(text@.subrange(from as int, to as int)),
    ensures
        match r {
            Some(v) => v == dec_value(text@.subrange(from as int, to as int)),
            None => dec_value(text@.subrange(from as int, to as int)) > u64::MAX,
        },
{
    let ghost whole = text@.subrange(from as int, to as int);
    let mut acc: u64 = 0;
    let mut i = from;
    while i < to
        invariant
            from <= i <= to <= text@.len(),
            all_digits(whole),
            whole == text@.subrange(from as int, to as int),
            acc == dec_value(text@.subrange(from as int, i as int)),
        decreases to - i,
    {
        let c = text.get_char(i);
        proof {
            assert(whole[i - from] == text@[i as int]);
        }
        let d = (c as u32) - 48;
        let ghost prefix = text@.subrange(from as int, i + 1);
        proof {
            assert(prefix.drop_last() =~= text@.subrange(from as int, i as int));
            assert(prefix.last() == text@[i as int]);
            assert(forall|q: int| 0 <= q < prefix.len() ==> prefix[q] == whole[q]);
            assert(all_digits(prefix));
        }
        if acc > (u64::MAX - d as u64) / 10 {
            proof {
                assert(dec_value(prefix) > u64::MAX);
                lemma_dec_value_prefix(whole, i + 1 - from);
                assert(whole.subrange(0, i + 1 - from) =~= prefix);
            }
            return None;
        }
        acc = acc * 10 + d as u64;
        i += 1;
    }
    proof {
        assert(text@.subrange(from as int, i as int) =~= whole);
    }
    Some(acc)
}

/// The prefix `p` occurs at `i`, immediately followed by at least one digit.
pub open spec fn digits_follow(t: Seq<char>, p: Seq<char>, i: int) -> bool {
    match_at(t, p, i) && i + p.len() < t.len() && is_digit(t[i + p.len()])
}

/// `i` is the first position where `p` followed by a digit occurs.
pub open spec fn is_first_digits_follow(t: Seq<char>, p: Seq<char>, i: int) -> bool {
    digits_follow(t, p, i) && (forall|j: int| 0 <= j < i ==> !digits_follow(t, p, j))
}

proof fn lemma_first_digits_follow_unique(t: Seq<char>, p: Seq<char>, i1: int, i2: int)
    requires
        is_first_digits_follow(t, p, i1),
        is_first_digits_follow(t, p, i2),
    ensures
        i1 == i2,
{
}

/// The number captured by the prefixed-digits grammar: the value of the
/// maximal digit run after the first occurrence of the prefix.
pub open spec fn spec_prefixed_capture(t: Seq<char>, p: Seq<char>) -> Option<int> {
    if exists|i: int| is_first_digits_follow(t, p, i) {
        let i = choose|i: int| is_first_digits_follow(t, p, i);
        Some(dec_value(t.subrange(i + p.len(), spec_run_end(t, i + p.len()))))
    } else {
        None
    }
}

/// Finds the first occurrence of `prefix` followed by a digit run, and
/// returns the bounds of the maximal run: the grammar of the total-page
/// indicator `of <N>`.
pub fn scan_prefixed_digits(text: &str, prefix: &str) -> (r: Option<(usize, usize)>)
    ensures
        match r {
            Some(ab) => {
                &&& prefix@.len() <= ab.0 < ab.1 <= text@.len()
                &&& is_first_digits_follow(text@, prefix@, ab.0 - prefix@.len())
                &&& all_digits(text@.subrange(ab.0 as int, ab.1 as int))
                &&& (ab.1 < text@.len() ==> !is_digit(text@[ab.1 as int]))
                &&& spec_prefixed_capture(text@, prefix@) == Some(
                    dec_value(text@.subrange(ab.0 as int, ab.1 as int)),
                )
            },
            None => (forall|j: int| !digits_follow(text@, prefix@, j))
                && spec_prefixed_capture(text@, prefix@) is None,
        },
{
    let n = text.unicode_len();
    let m = prefix.unicode_len();
    let mut pos: usize = 0;
    loop
        invariant
            n == text@.len(),
            m == prefix@.len(),
            0 <= pos <= n + 1,
            forall|j: int| 0 <= j < pos ==> !digits_follow(text@, prefix@, j),
        decreases n + 1 - pos,
    {
        match find_sub_from(text, prefix, pos) {
            None => {
                proof {
                    assert forall|k: int| !is_first_digits_follow(text@, prefix@, k) by {
                        assert(!digits_follow(text@, prefix@, k));
                    }
                }
                return None;
            },
            Some(i) => {
                let a = i + m;
                if a < n && is_digit_char(text.get_char(a)) {
                    let b = digit_run_end(text, a);
                    proof {
                        assert(text@.subrange(a as int, b as int)[0] == text@[a as int]);
                        assert forall|j: int| 0 <= j < i implies !digits_follow(
                            text@,
                            prefix@,
                            j,
                        ) by {}
                        assert(is_first_digits_follow(text@, prefix@, i as int));
                        let ic = choose|k: int| is_first_digits_follow(text@, prefix@, k);
                        lemma_first_digits_follow_unique(text@, prefix@, ic, i as int);
                    }
                    return Some((a, b));
                }
                assert(!digits_follow(text@, prefix@, i as int));
                if i == n {
                    proof {
                        assert forall|k: int| !is_first_digits_follow(text@, prefix@, k) by {
                            assert(!digits_follow(text@, prefix@, k));
                        }
                    }
                    return None;
                }
                pos = i + 1;
            },
        }
    }
}

/// The id marker grammar: the prefix `p` at `i`, then one or more digits,
/// then the terminator character. This is the shape of the platform's
/// inline script assignment `<namespace>.info.pageId = <N>;` and of the
/// event-handler id capture `(<N>)`.
pub open spec fn marker_len_at(t: Seq<char>, p: Seq<char>, term: char, i: int, d: int) -> bool {
    &&& match_at(t, p, i)
    &&& 1 <= d
    &&& i + p.len() + d + 1 <= t.len()
    &&& all_digits(t.subrange(i + p.len(), i + p.len() + d))
    &&& t[i + p.len() + d] == term
}

/// Some digit-run length makes the marker grammar match at `i`.
pub open spec fn marker_at(t: Seq<char>, p: Seq<char>, term: char, i: int) -> bool {
    exists|d: int| marker_len_at(t, p, term, i, d)
}

/// `i` is the first position where the marker grammar matches.
pub open spec fn is_first_marker(t: Seq<char>, p: Seq<char>, term: char, i: int) -> bool {
    marker_at(t, p, term, i) && (forall|j: int| 0 <= j < i ==> !marker_at(t, p, term, j))
}

proof fn lemma_first_marker_unique(t: Seq<char>, p: Seq<char>, term: char, i1: int, i2: int)
    requires
        is_first_marker(t, p, term, i1),
        is_first_marker(t, p, term, i2),
    ensures
        i1 == i2,
{
}

/// The number the marker grammar captures: the value of the digit run at
/// the first position where the grammar matches.
pub open spec fn spec_marker_capture(t: Seq<char>, p: Seq<char>, term: char) -> Option<int> {
    if exists|i: int| is_first_marker(t, p, term, i) {
        let i = choose|i: int| is_first_marker(t, p, term, i);
        Some(dec_value(t.subrange(i + p.len(), spec_run_end(t, i + p.len()))))
    } else {
        None
    }
}

/// Finds the first position where the marker grammar matches, and returns
/// the bounds of its digit run.
pub fn scan_marker_digits(text: &str, prefix: &str, term: char) -> (r: Option<(usize, usize)>)
    requires
        !is_digit(term),
    ensures
        match r {
            Some(ab) => {
                &&& prefix@.len() <= ab.0 < ab.1 < text@.len()
                &&& is_first_marker(text@, prefix@, term, ab.0 - prefix@.len())
                &&& all_digits(text@.subrange(ab.0 as int, ab.1 as int))
                &&& text@[ab.1 as int] == term
                &&& spec_marker_capture(text@, prefix@, term) == Some(
                    dec_value(text@.subrange(ab.0 as int, ab.1 as int)),
                )
            },
            None => (forall|j: int| !marker_at(text@, prefix@, term, j)) && spec_marker_capture(
                text@,
                prefix@,
                term,
            ) is None,
        },
{
    let n = text.unicode_len();
    let m = prefix.unicode_len();
    let mut pos: usize = 0;
    loop
        invariant
            n == text@.len(),
            m == prefix@.len(),
            !is_digit(term),
            0 <= pos <= n + 1,
            forall|j: int| 0 <= j < pos ==> !marker_at(text@, prefix@, term, j),
        decreases n + 1 - pos,
    {
        match find_sub_from(text, prefix, pos) {
            None => {
                assert(forall|j: int| pos <= j ==> !marker_at(text@, prefix@, term, j)) by {
                    assert forall|j: int, d: int|
                        pos <= j && !match_at(text@, prefix@, j) implies !marker_len_at(
                        text@,
                        prefix@,
                        term,
                        j,
                        d,
                    ) by {}
                }
                proof {
                    assert forall|k: int| !is_first_marker(text@, prefix@, term, k) by {
                        assert(!marker_at(text@, prefix@, term, k));
                    }
                }
                return None;
            },
            Some(i) => {
                let a = i + m;
                let mut candidate_ok = false;
                let mut b: usize = a;
                if a < n && is_digit_char(text.get_char(a)) {
                    b = digit_run_end(text, a);
                    if b < n && text.get_char(b) == term {
                        candidate_ok = true;
                    }
                }
                if candidate_ok {
                    proof {
                        assert(text@.subrange(a as int, b as int)[0] == text@[a as int]);
                        let d = b - a;
                        assert(marker_len_at(text@, prefix@, term, i as int, d));
                        assert forall|j: int| 0 <= j < i implies !marker_at(
                            text@,
                            prefix@,
                            term,
                            j,
                        ) by {
                            assert forall|dd: int|
                                pos <= j && !match_at(text@, prefix@, j) implies !marker_len_at(
                                text@,
                                prefix@,
                                term,
                                j,
                                dd,
                            ) by {}
                        }
                        assert(is_first_marker(text@, prefix@, term, i as int));
                        let ic = choose|k: int| is_first_marker(text@, prefix@, term, k);
                        lemma_first_marker_unique(text@, prefix@, term, ic, i as int);
                    }
                    return Some((a, b));
                }
                proof {
                    assert forall|d: int| !marker_len_at(text@, prefix@, term, i as int, d) by {
                        if marker_len_at(text@, prefix@, term, i as int, d) {
                            let aa = i + m;
                            assert(is_digit(text@[aa as int])) by {
                                assert(text@.subrange(aa as int, aa + d)[0] == text@[aa as int]);
                            }
                            // So a digit run starts at `a`; b is its maximal end.
                            assert(aa < text@.len());
                            // d cannot stop short of b: the terminator would be a digit.
                            if aa + d < b {
                                assert(is_digit(text@[aa + d])) by {
                                    assert(text@.subrange(aa as int, b as int)[d] == text@[aa
                                        + d]);
                                }
                                assert(text@[aa + d] == term);
                            } else if aa + d == b {
                                // Then the terminator test at b failed.
                                assert(text@[b as int] == term);
                                assert(b < text@.len());
                            } else {
                                // d runs past b, so t[b] would be a digit.
                                assert(b < text@.len()) by {
                                    assert(aa + d + 1 <= text@.len());
                                }
                                assert(is_digit(text@[b as int])) by {
                                    assert(text@.subrange(aa as int, aa + d)[b - aa] == text@[b
                                        as int]);
                                }
                            }
                        }
                    }
                }
                if i == n {
                    proof {
                        assert forall|k: int| !is_first_marker(text@, prefix@, term, k) by {
                            if k < pos {
                                assert(!marker_at(text@, prefix@, term, k));
                            } else if k < i {
                                assert forall|dd: int|
                                    !marker_len_at(text@, prefix@, term, k, dd) by {
                                    if marker_len_at(text@, prefix@, term, k, dd) {
                                        assert(match_at(text@, prefix@, k));
                                    }
                                }
                                assert(!marker_at(text@, prefix@, term, k));
                            } else if k == i {
                                assert(!marker_at(text@, prefix@, term, k));
                            } else {
                                assert forall|dd: int|
                                    !marker_len_at(text@, prefix@, term, k, dd) by {
                                    if marker_len_at(text@, prefix@, term, k, dd) {
                                        assert(k + prefix@.len() + dd + 1 <= text@.len());
                                    }
                                }
                                assert(!marker_at(text@, prefix@, term, k));
                            }
                        }
                    }
                    return None;
                }
                pos = i + 1;
            },
        }
    }
}

/// The bounds `a..b` delimit the text between the first occurrence of an
/// opening tag and the first occurrence of a closing tag after it: the
/// grammar of the document title capture.
pub open spec fn capture_bounds(
    t: Seq<char>,
    op: Seq<char>,
    cl: Seq<char>,
    a: int,
    b: int,
) -> bool {
    &&& op.len() <= a && match_at(t, op, a - op.len())
    &&& (forall|j: int| 0 <= j < a - op.len() ==> !match_at(t, op, j))
    &&& a <= b && match_at(t, cl, b)
    &&& (forall|j: int| a <= j < b ==> !match_at(t, cl, j))
}

/// Captures the text between the first `open` tag and the first `close` tag
/// after it.
pub fn capture_between(text: &str, open: &str, close: &str) -> (r: Option<(usize, usize)>)
    ensures
        match r {
            Some(ab) => capture_bounds(text@, open@, close@, ab.0 as int, ab.1 as int),
            None => forall|a: int, b: int| !capture_bounds(text@, open@, close@, a, b),
        },
{
    let i = match find_sub(text, open) {
        Some(i) => i,
        None => {
            assert forall|a: int, b: int| !capture_bounds(text@, open@, close@, a, b) by {}
            return None;
        },
    };
    // The length call pins the text length within address range, which the
    // offset arithmetic below needs.
    let text_len = text.unicode_len();
    let m = open.unicode_len();
    let a = i + m;
    match find_sub_from(text, close, a) {
        Some(b) => Some((a, b)),
        None => {
            assert forall|aa: int, bb: int| !capture_bounds(text@, open@, close@, aa, bb) by {
                if capture_bounds(text@, open@, close@, aa, bb) {
                    // The first `open` occurrence pins aa to a.
                    assert(aa - open@.len() >= i);
                    assert(!(aa - open@.len() > i)) by {
                        if aa - open@.len() > i {
                            assert(!match_at(text@, open@, i as int));
                        }
                    }
                    assert(!match_at(text@, close@, bb));
                }
            }
            None
        },
    }
}

/// Value of a non-empty all-digit string, `None` otherwise.
pub open spec fn digits_value_opt(s: Seq<char>) -> Option<int> {
    if s.len() > 0 && all_digits(s) {
        Some(dec_value(s))
    } else {
        None
    }
}

/// The integer grammar: an optional sign, then one or more digits.
pub open spec fn spec_parse_int(s: Seq<char>) -> Option<int> {
    if s.len() > 0 && (s[0] == '+' || s[0] == '-') {
        match digits_value_opt(s.subrange(1, s.len() as int)) {
            Some(v) => Some(
                if s[0] == '-' {
                    -v
                } else {
                    v
                },
            ),
            None => None,
        }
    } else {
        digits_value_opt(s)
    }
}

/// Parses a whole string as a signed integer; `None` when the string does
/// not match the integer grammar or the value does not fit in an `i64`.
pub fn parse_int_str(s: &str) -> (r: Option<i64>)
    ensures
        match spec_parse_int(s@) {
            Some(v) => if i64::MIN <= v <= i64::MAX {
                r == Some(v as i64)
            } else {
                r is None
            },
            None => r is None,
        },
{
    let n = s.unicode_len();
    if n == 0 {
        return None;
    }
    let c0 = s.get_char(0);
    let neg = c0 == '-';
    let start: usize = if c0 == '-' || c0 == '+' {
        1
    } else {
        0
    };
    let ghost body = s@.subrange(start as int, n as int);
    let b = digit_run_end(s, start);
    if b == start || b < n {
        proof {
            if b < n {
                assert(!all_digits(body)) by {
                    assert(body[b - start] == s@[b as int]);
                }
            }
            if start == 0 && n > 0 && !(s@[0] == '+' || s@[0] == '-') {
                assert(body =~= s@);
            }
        }
        return None;
    }
    proof {
        assert(all_digits(body)) by {
            assert(forall|q: int|
                0 <= q < body.len() ==> body[q] == s@[start + q]);
        }
        if start == 0 {
            assert(body =~= s@);
        }
    }
    match parse_digit_range(s, start, n) {
        None => {
            // The magnitude exceeds u64::MAX, so it exceeds the i64 range too.
            None
        },
        Some(v) => {
            if neg {
                if v > 9223372036854775808u64 {
                    None
                } else if v == 9223372036854775808u64 {
                    Some(i64::MIN)
                } else {
                    Some(-(v as i64))
                }
            } else {
                if v > i64::MAX as u64 {
                    None
                } else {
                    Some(v as i64)
                }
            }
        },
    }
}

/// A valid split of a decimal magnitude: digits, a dot at `k`, then at least
/// one more digit.
pub open spec fn decimal_split(s: Seq<char>, k: int) -> bool {
    &&& 1 <= k < s.len()
    &&& all_digits(s.subrange(0, k))
    &&& s[k] == '.'
    &&& k + 1 < s.len()
    &&& all_digits(s.subrange(k + 1, s.len() as int))
}

proof fn lemma_decimal_split_unique(s: Seq<char>, k1: int, k2: int)
    requires
        decimal_split(s, k1),
        decimal_split(s, k2),
    ensures
        k1 == k2,
{
    if k1 < k2 {
        assert(is_digit(s[k1])) by {
            assert(s.subrange(0, k2)[k1] == s[k1]);
        }
    }
    if k2 < k1 {
        assert(is_digit(s[k2])) by {
            assert(s.subrange(0, k1)[k2] == s[k2]);
        }
    }
}

/// Magnitude denoted by an unsigned decimal literal, truncated toward zero:
/// either all digits, or digits, a dot, and more digits.
pub open spec fn decimal_mag(s: Seq<char>) -> Option<int> {
    if s.len() > 0 && all_digits(s) {
        Some(dec_value(s))
    } else if exists|k: int| decimal_split(s, k) {
        Some(dec_value(s.subrange(0, choose|k: int| decimal_split(s, k))))
    } else {
        None
    }
}

/// The decimal grammar with an optional sign; the value is the integer part,
/// so the result is the decimal truncated toward zero.
pub open spec fn spec_parse_decimal(s: Seq<char>) -> Option<int> {
    if s.len() > 0 && (s[0] == '+' || s[0] == '-') {
        match decimal_mag(s.subrange(1, s.len() as int)) {
            Some(v) => Some(
                if s[0] == '-' {
                    -v
                } else {
                    v
                },
            ),
            None => None,
        }
    } else {
        decimal_mag(s)
    }
}

/// Parses a whole string as a signed decimal and truncates it toward zero;
/// `None` when the string does not match the grammar (an optional sign, one
/// or more digits, then optionally a dot and one or more digits) or the
/// integer part does not fit in an `i64`.
pub fn parse_decimal_trunc(s: &str) -> (r: Option<i64>)
    ensures
        match spec_parse_decimal(s@) {
            Some(v) => if i64::MIN <= v <= i64::MAX {
                r == Some(v as i64)
            } else {
                r is None
            },
            None => r is None,
        },
{
    let n = s.unicode_len();
    if n == 0 {
        return None;
    }
    let c0 = s.get_char(0);
    let neg = c0 == '-';
    let start: usize = if c0 == '-' || c0 == '+' {
        1
    } else {
        0
    };
    let ghost body = s@.subrange(start as int, n as int);
    proof {
        if start == 0 {
            assert(body =~= s@);
        }
        assert(forall|q: int| 0 <= q < body.len() ==> body[q] == s@[start + q]);
    }
    let b = digit_run_end(s, start);
    proof {
        assert forall|q: int| start <= q < b implies is_digit(#[trigger] s@[q]) by {
            assert(s@.subrange(start as int, b as int)[q - start] == s@[q]);
        }
    }
    if b == start {
        // No integer digits at all.
        proof {
            assert(!all_digits(body) || body.len() == 0) by {
                if body.len() > 0 {
                    if b < n {
                        assert(body[0] == s@[start as int]);
                    }
                }
            }
            assert forall|k: int| !decimal_split(body, k) by {
                if decimal_split(body, k) {
                    assert(is_digit(body[0])) by {
                        assert(body.subrange(0, k)[0] == body[0]);
                    }
                    assert(body[0] == s@[start as int]);
                }
            }
        }
        return None;
    }
    // Digits run over [start, b).
    if b == n {
        // Pure integer.
        proof {
            assert(all_digits(body));
        }
        let v = match parse_digit_range(s, start, n) {
            None => {
                return None;
            },
            Some(v) => v,
        };
        proof {
            assert(body =~= s@.subrange(start as int, n as int));
        }
        return finish_signed(v, neg);
    }
    // A non-digit stops the run before the end; the grammar needs a dot here
    // with at least one digit after it, reaching the end of the string.
    let ghost kk = b - start;
    proof {
        assert(!all_digits(body)) by {
            assert(body[b - start] == s@[b as int]);
        }
    }
    if !(s.get_char(b) == '.') || b + 1 >= n {
        proof {
            assert forall|k: int| !decimal_split(body, k) by {
                if decimal_split(body, k) {
                    lemma_run_pins_dot(s@, body, start as int, b as int, n as int, k);
                    assert(body[k] == s@[b as int]);
                }
            }
        }
        return None;
    }
    let f = digit_run_end(s, b + 1);
    if f < n {
        proof {
            assert forall|k: int| !decimal_split(body, k) by {
                if decimal_split(body, k) {
                    lemma_run_pins_dot(s@, body, start as int, b as int, n as int, k);
                    let tail = body.subrange(k + 1, body.len() as int);
                    assert(is_digit(tail[f - b - 1]));
                    assert(tail[f - b - 1] == s@[f as int]);
                }
            }
        }
        return None;
    }
    proof {
        assert(decimal_split(body, kk)) by {
            assert(all_digits(body.subrange(0, kk))) by {
                let head = body.subrange(0, kk);
                assert forall|q: int| 0 <= q < head.len() implies is_digit(
                    #[trigger] head[q],
                ) by {
                    assert(head[q] == s@[start + q]);
                }
            }
            assert(body[kk] == s@[b as int]);
            assert(all_digits(body.subrange(kk + 1, body.len() as int))) by {
                let tail = body.subrange(kk + 1, body.len() as int);
                assert forall|q: int| 0 <= q < tail.len() implies is_digit(#[trigger] tail[q]) by {
                    assert(tail[q] == s@[b + 1 + q]);
                    assert(s@.subrange(b + 1, f as int)[q] == s@[b + 1 + q]);
                }
            }
        }
        let kc = choose|k: int| decimal_split(body, k);
        lemma_decimal_split_unique(body, kc, kk);
        assert(body.subrange(0, kk) =~= s@.subrange(start as int, b as int));
    }
    let v = match parse_digit_range(s, start, b) {
        None => {
            return None;
        },
        Some(v) => v,
    };
    finish_signed(v, neg)
}

/// `s` without the prefix `p` when it carries it, `s` itself otherwise.
pub open spec fn spec_strip_prefix(s: Seq<char>, p: Seq<char>) -> Seq<char> {
    if p.len() <= s.len() && s.subrange(0, p.len() as int) == p {
        s.subrange(p.len() as int, s.len() as int)
    } else {
        s
    }
}

/// Removes a leading occurrence of `p` from `s`.
pub fn strip_prefix_or_self(s: &str, p: &str) -> (r: String)
    ensures
        r@ == spec_strip_prefix(s@, p@),
{
    let n = s.unicode_len();
    let m = p.unicode_len();
    if starts_with(s, p) {
        let rest = s.substring_char(m, n);
        rest.to_owned()
    } else {
        s.to_owned()
    }
}

/// The whitespace characters stripped by `trim_str`.
pub open spec fn is_space(c: char) -> bool {
    c == ' ' || c == '\t' || c == '\n' || c == '\r'
}

/// `s` with leading whitespace removed.
pub open spec fn trim_front(s: Seq<char>) -> Seq<char>
    decreases s.len(),
{
    if s.len() > 0 && is_space(s[0]) {
        trim_front(s.drop_first())
    } else {
        s
    }
}

/// `s` with trailing whitespace removed.
pub open spec fn trim_back(s: Seq<char>) -> Seq<char>
    decreases s.len(),
{
    if s.len() > 0 && is_space(s.last()) {
        trim_back(s.drop_last())
    } else {
        s
    }
}

/// `s` with surrounding whitespace removed.
pub open spec fn spec_trim(s: Seq<char>) -> Seq<char> {
    trim_back(trim_front(s))
}

proof fn lemma_trim_front_at(s: Seq<char>, a: int)
    requires
        0 <= a <= s.len(),
        forall|i: int| 0 <= i < a ==> is_space(#[trigger] s[i]),
        a < s.len() ==> !is_space(s[a]),
    ensures
        trim_front(s) == s.subrange(a, s.len() as int),
    decreases a,
{
    if a == 0 {
        assert(s.subrange(0, s.len() as int) =~= s);
    } else {
        let t = s.drop_first();
        assert(forall|i: int| 0 <= i < t.len() ==> t[i] == s[i + 1]);
        lemma_trim_front_at(t, a - 1);
        assert(t.subrange(a - 1, t.len() as int) =~= s.subrange(a, s.len() as int));
    }
}

proof fn lemma_trim_back_at(s: Seq<char>, b: int)
    requires
        0 <= b <= s.len(),
        forall|i: int| b <= i < s.len() ==> is_space(#[trigger] s[i]),
        b > 0 ==> !is_space(s[b - 1]),
    ensures
        trim_back(s) == s.subrange(0, b),
    decreases s.len() - b,
{
    if b == s.len() {
        assert(s.subrange(0, s.len() as int) =~= s);
    } else {
        let t = s.drop_last();
        assert(forall|i: int| 0 <= i < t.len() ==> t[i] == s[i]);
        lemma_trim_back_at(t, b);
        assert(t.subrange(0, b) =~= s.subrange(0, b));
    }
}

/// Removes surrounding whitespace, as the extraction step does with every
/// text value it pulls out of a markup fragment.
pub fn trim_str(s: &str) -> (r: String)
    ensures
        r@ == spec_trim(s@),
{
    let n = s.unicode_len();
    let mut a: usize = 0;
    while a < n && is_space_char(s.get_char(a))
        invariant
            0 <= a <= n,
            n == s@.len(),
            forall|i: int| 0 <= i < a ==> is_space(#[trigger] s@[i]),
        decreases n - a,
    {
        a += 1;
    }
    proof {
        lemma_trim_front_at(s@, a as int);
    }
    let ghost front = s@.subrange(a as int, n as int);
    let mut e: usize = a;
    let mut last_non_space: usize = a;
    while e < n
        invariant
            a <= last_non_space <= e <= n,
            n == s@.len(),
            forall|i: int| last_non_space <= i < e ==> is_space(#[trigger] s@[i]),
            last_non_space > a ==> !is_space(s@[last_non_space - 1]),
        decreases n - e,
    {
        if !is_space_char(s.get_char(e)) {
            last_non_space = e + 1;
        }
        e += 1;
    }
    proof {
        assert(forall|i: int|
            0 <= i < front.len() ==> front[i] == s@[a + i]);
        lemma_trim_back_at(front, last_non_space - a);
        assert(front.subrange(0, last_non_space - a) =~= s@.subrange(
            a as int,
            last_non_space as int,
        ));
    }
    let piece = s.substring_char(a, last_non_space);
    piece.to_owned()
}

/// Exec test for the whitespace set of `trim_str`.
pub fn is_space_char(c: char) -> (r: bool)
    ensures
        r == is_space(c),
{
    c == ' ' || c == '\t' || c == '\n' || c == '\r'
}

/// Splitting on single spaces, with the current segment as accumulator.
/// Empty segments are kept, as the platform's tag lists are split verbatim.
pub open spec fn split_acc(s: Seq<char>, cur: Seq<char>) -> Seq<Seq<char>>
    decreases s.len(),
{
    if s.len() == 0 {
        seq![cur]
    } else if s[0] == ' ' {
        seq![cur] + split_acc(s.drop_first(), Seq::empty())
    } else {
        split_acc(s.drop_first(), cur.push(s[0]))
    }
}

/// The segments of `s` between single space characters.
pub open spec fn spec_split_spaces(s: Seq<char>) -> Seq<Seq<char>> {
    split_acc(s, Seq::empty())
}

/// One unfolding step of `split_acc` along a scan position.
proof fn lemma_split_acc_step(s: Seq<char>, cur: Seq<char>)
    requires
        s.len() > 0,
    ensures
        s[0] == ' ' ==> split_acc(s, cur) == seq![cur] + split_acc(s.drop_first(), Seq::empty()),
        s[0] != ' ' ==> split_acc(s, cur) == split_acc(s.drop_first(), cur.push(s[0])),
{
}

/// Splits a string on single space characters, keeping empty segments.
pub fn split_spaces(s: &str) -> (r: Vec<String>)
    ensures
        r.deep_view() == spec_split_spaces(s@),
{
    let n = s.unicode_len();
    let mut out: Vec<String> = Vec::new();
    let mut cur = String::new();
    let mut i: usize = 0;
    proof {
        assert(s@.subrange(0, n as int) =~= s@);
        assert(out.deep_view() =~= Seq::<Seq<char>>::empty());
        assert(out.deep_view() + split_acc(s@, cur@) =~= split_acc(s@, cur@));
    }
    while i < n
        invariant
            0 <= i <= n,
            n == s@.len(),
            spec_split_spaces(s@) == out.deep_view() + split_acc(
                s@.subrange(i as int, n as int),
                cur@,
            ),
        decreases n - i,
    {
        let ghost rest = s@.subrange(i as int, n as int);
        let c = s.get_char(i);
        proof {
            assert(rest[0] == s@[i as int]);
            assert(rest.drop_first() =~= s@.subrange(i + 1, n as int));
            lemma_split_acc_step(rest, cur@);
        }
        if c == ' ' {
            let ghost out_dv = out.deep_view();
            let ghost cur_v = cur@;
            out.push(cur);
            cur = String::new();
            proof {
                assert(out.deep_view() =~= out_dv.push(cur_v));
                assert(out_dv.push(cur_v) + split_acc(s@.subrange(i + 1, n as int), cur@) =~= out_dv
                    + (seq![cur_v] + split_acc(s@.subrange(i + 1, n as int), Seq::empty())));
            }
        } else {
            let ghost cur_v = cur@;
            let piece = s.substring_char(i, i + 1);
            proof {
                assert(s@.subrange(i as int, i + 1) =~= seq![s@[i as int]]);
            }
            cur.append(piece);
            proof {
                assert(cur@ =~= cur_v.push(s@[i as int]));
            }
        }
        i += 1;
    }
    let ghost out_dv = out.deep_view();
    let ghost cur_v = cur@;
    proof {
        assert(s@.subrange(i as int, n as int).len() == 0);
        assert(split_acc(s@.subrange(i as int, n as int), cur@) == seq![cur@]);
    }
    out.push(cur);
    proof {
        assert(out.deep_view() =~= out_dv.push(cur_v));
        assert(out_dv.push(cur_v) =~= out_dv + seq![cur_v]);
    }
    out
}

/// `s` with every dot removed.
pub open spec fn spec_remove_dots(s: Seq<char>) -> Seq<char>
    decreases s.len(),
{
    if s.len() == 0 {
        Seq::empty()
    } else if s.last() == '.' {
        spec_remove_dots(s.drop_last())
    } else {
        spec_remove_dots(s.drop_last()).push(s.last())
    }
}

/// Removes every dot, as the revision-index cell needs before parsing.
pub fn remove_dots(s: &str) -> (r: String)
    ensures
        r@ == spec_remove_dots(s@),
{
    let n = s.unicode_len();
    let mut out = String::new();
    let mut i: usize = 0;
    while i < n
        invariant
            0 <= i <= n,
            n == s@.len(),
            out@ == spec_remove_dots(s@.subrange(0, i as int)),
        decreases n - i,
    {
        let c = s.get_char(i);
        proof {
            assert(s@.subrange(0, i + 1).drop_last() =~= s@.subrange(0, i as int));
            assert(s@.subrange(0, i + 1).last() == s@[i as int]);
        }
        if c != '.' {
            let piece = s.substring_char(i, i + 1);
            proof {
                assert(piece@ =~= seq![s@[i as int]]);
            }
            out.append(piece);
            proof {
                assert(out@ =~= spec_remove_dots(s@.subrange(0, i + 1)));
            }
        }
        i += 1;
    }
    proof {
        assert(s@.subrange(0, s@.len() as int) =~= s@);
    }
    out
}

/// `c` is an ASCII letter.
pub open spec fn is_letter(c: char) -> bool {
    (65 <= c as int <= 90) || (97 <= c as int <= 122)
}

/// The ASCII letters of `s`, in order: the change-type flags of a revision
/// row are single letters among punctuation.
pub open spec fn spec_letters(s: Seq<char>) -> Seq<char>
    decreases s.len(),
{
    if s.len() == 0 {
        Seq::empty()
    } else if is_letter(s.last()) {
        spec_letters(s.drop_last()).push(s.last())
    } else {
        spec_letters(s.drop_last())
    }
}

/// Keeps the ASCII letters of `s`, in order.
pub fn filter_letters(s: &str) -> (r: Vec<char>)
    ensures
        r@ == spec_letters(s@),
{
    let n = s.unicode_len();
    let mut out: Vec<char> = Vec::new();
    let mut i: usize = 0;
    while i < n
        invariant
            0 <= i <= n,
            n == s@.len(),
            out@ == spec_letters(s@.subrange(0, i as int)),
        decreases n - i,
    {
        let c = s.get_char(i);
        proof {
            assert(s@.subrange(0, i + 1).drop_last() =~= s@.subrange(0, i as int));
            assert(s@.subrange(0, i + 1).last() == s@[i as int]);
        }
        let u = c as u32;
        if (65 <= u && u <= 90) || (97 <= u && u <= 122) {
            out.push(c);
        }
        i += 1;
    }
    proof {
        assert(s@.subrange(0, s@.len() as int) =~= s@);
    }
    out
}

/// A field-true copy of a string vector.
pub fn clone_string_vec(v: &Vec<String>) -> (r: Vec<String>)
    ensures
        r@ == v@,
{
    let mut r: Vec<String> = Vec::new();
    let mut i: usize = 0;
    while i < v.len()
        invariant
            0 <= i <= v@.len(),
            r@ =~= v@.subrange(0, i as int),
        decreases v@.len() - i,
    {
        r.push(v[i].clone());
        proof {
            assert(r@ =~= v@.subrange(0, i + 1));
        }
        i += 1;
    }
    proof {
        assert(v@.subrange(0, v@.len() as int) =~= v@);
    }
    r
}

/// The digit character for a value in 0..10.
pub open spec fn char_of_digit(d: int) -> char {
    if d == 0 {
        '0'
    } else if d == 1 {
        '1'
    } else if d == 2 {
        '2'
    } else if d == 3 {
        '3'
    } else if d == 4 {
        '4'
    } else if d == 5 {
        '5'
    } else if d == 6 {
        '6'
    } else if d == 7 {
        '7'
    } else if d == 8 {
        '8'
    } else {
        '9'
    }
}

/// Decimal digit string of a non-negative number, most significant first.
pub open spec fn dec_digits(n: int) -> Seq<char>
    decreases n,
{
    if n < 10 {
        seq![char_of_digit(n)]
    } else {
        dec_digits(n / 10).push(char_of_digit(n % 10))
    }
}

/// Signed decimal digit string.
pub open spec fn spec_i64_dec(n: int) -> Seq<char> {
    if n >= 0 {
        dec_digits(n)
    } else {
        seq!['-'] + dec_digits(-n)
    }
}

/// The one-character string for a digit value.
fn digit_str(d: u64) -> (r: &'static str)
    requires
        d < 10,
    ensures
        r@ =~= seq![char_of_digit(d as int)],
{
    proof {
        reveal_strlit("0");
        reveal_strlit("1");
        reveal_strlit("2");
        reveal_strlit("3");
        reveal_strlit("4");
        reveal_strlit("5");
        reveal_strlit("6");
        reveal_strlit("7");
        reveal_strlit("8");
        reveal_strlit("9");
    }
    match d {
        0 => "0",
        1 => "1",
        2 => "2",
        3 => "3",
        4 => "4",
        5 => "5",
        6 => "6",
        7 => "7",
        8 => "8",
        _ => "9",
    }
}

/// Renders a number in decimal, as the avatar address builder needs.
pub fn u64_to_dec(n: u64) -> (r: String)
    ensures
        r@ == dec_digits(n as int),
    decreases n,
{
    let mut s = if n >= 10 {
        u64_to_dec(n / 10)
    } else {
        String::new()
    };
    let piece = digit_str(n % 10);
    s.append(piece);
    proof {
        if n < 10 {
            assert(s@ =~= dec_digits(n as int));
        } else {
            assert(s@ =~= dec_digits(n as int / 10).push(char_of_digit(n as int % 10)));
        }
    }
    s
}

/// Renders a signed number in decimal.
pub fn i64_to_dec(n: i64) -> (r: String)
    ensures
        r@ == spec_i64_dec(n as int),
{
    if n >= 0 {
        u64_to_dec(n as u64)
    } else {
        let mag: u64 = if n == i64::MIN {
            9223372036854775808u64
        } else {
            (-n) as u64
        };
        let mut s = String::new();
        proof {
            reveal_strlit("-");
        }
        s.append("-");
        let digits = u64_to_dec(mag);
        s.append(digits.as_str());
        proof {
            assert(s@ =~= seq!['-'] + dec_digits(-(n as int)));
        }
        s
    }
}

/// Pins the dot position: when the maximal digit run of `body` ends at
/// `b - start` and a decimal split exists, the split sits exactly there.
proof fn lemma_run_pins_dot(s: Seq<char>, body: Seq<char>, start: int, b: int, n: int, k: int)
    requires
        0 <= start <= b < n,
        n == s.len(),
        body == s.subrange(start, n),
        start < b,
        forall|q: int| start <= q < b ==> is_digit(#[trigger] s[q]),
        !is_digit(s[b]),
        decimal_split(body, k),
    ensures
        k == b - start,
        body[k] == '.',
        all_digits(body.subrange(k + 1, body.len() as int)),
{
    assert(forall|q: int| 0 <= q < body.len() ==> body[q] == s[start + q]);
    if k < b - start {
        assert(is_digit(body[k])) by {
            assert(body[k] == s[start + k]);
        }
        assert(body[k] == '.');
    }
    if k > b - start {
        assert(is_digit(body[b - start])) by {
            assert(body.subrange(0, k)[b - start] == body[b - start]);
        }
        assert(body[b - start] == s[b]);
    }
}

/// Applies the sign and the i64 range check to a parsed magnitude.
fn finish_signed(v: u64, neg: bool) -> (r: Option<i64>)
    ensures
        match r {
            Some(x) => x as int == if neg {
                -(v as int)
            } else {
                v as int
            },
            None => !(i64::MIN <= (if neg {
                -(v as int)
            } else {
                v as int
            }) <= i64::MAX),
        },
{
    if neg {
        if v > 9223372036854775808u64 {
            None
        } else if v == 9223372036854775808u64 {
            Some(i64::MIN)
        } else {
            Some(-(v as i64))
        }
    } else {
        if v > i64::MAX as u64 {
            None
        } else {
            Some(v as i64)
        }
    }
}

} // verus!
