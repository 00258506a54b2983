//! Regular expressions. The `regex` crate does the matching; this module
//! names what it returns, so that the functions built on it can say exactly
//! what they compute from those results, and puts rewritten text together.
//!
//! A contract can speak of a pattern as text, not of a compiled expression,
//! so every call here takes the pattern as text and compiles it.

use vstd::prelude::*;
use crate::lines::{push_chars, texts};

verus! {

/// Whether the `regex` crate accepts `pattern` as a regular expression.
pub uninterp spec fn pattern_compiles(pattern: Seq<char>) -> bool;

/// Whether `pattern` matches anywhere in `text`.
pub uninterp spec fn pattern_matches(pattern: Seq<char>, text: Seq<char>) -> bool;

/// `text` with every match of `pattern` replaced by the expansion of
/// `template`, in which `$n` stands for the text of group `n` and `$$` for
/// a dollar sign.
pub uninterp spec fn pattern_replaced(
    pattern: Seq<char>,
    text: Seq<char>,
    template: Seq<char>,
) -> Seq<char>;

/// The matches of `pattern` in `text` from left to right, none overlapping
/// another: for each match the text of every group, group 0 being the whole
/// match, and `None` for a group that took no part in it.
pub uninterp spec fn pattern_captures(pattern: Seq<char>, text: Seq<char>) -> Seq<
    Seq<Option<Seq<char>>>,
>;

/// The parts of `text` that no match of `pattern` covers, from left to
/// right.
pub uninterp spec fn pattern_gaps(pattern: Seq<char>, text: Seq<char>) -> Seq<Seq<char>>;

/// The groups of one match, each as a sequence of characters.
pub open spec fn group_texts(groups: Seq<Option<Vec<char>>>) -> Seq<Option<Seq<char>>> {
    groups.map_values(
        |g: Option<Vec<char>>|
            match g {
                Some(t) => Some(t@),
                None => None,
            },
    )
}

/// The groups of each match in `matches`.
pub open spec fn match_texts(matches: Seq<Vec<Option<Vec<char>>>>) -> Seq<Seq<Option<Seq<char>>>> {
    matches.map_values(|m: Vec<Option<Vec<char>>>| group_texts(m@))
}

/// The text of group `n`; empty where the match has no such group or the
/// group took no part in it.
pub open spec fn group_text(groups: Seq<Option<Seq<char>>>, n: int) -> Seq<char> {
    if 0 <= n < groups.len() {
        match groups[n] {
            Some(t) => t,
            None => Seq::empty(),
        }
    } else {
        Seq::empty()
    }
}

/// The pieces of `gaps` and `reps` in turn, a gap first. Where one of the
/// two runs out, the rest of the other follows.
pub open spec fn interleaved(gaps: Seq<Seq<char>>, reps: Seq<Seq<char>>) -> Seq<char>
    decreases gaps.len() + reps.len(),
{
    if gaps.len() == 0 && reps.len() == 0 {
        Seq::empty()
    } else if gaps.len() == 0 {
        reps[0] + interleaved(gaps, reps.drop_first())
    } else if reps.len() == 0 {
        gaps[0] + interleaved(gaps.drop_first(), reps)
    } else {
        gaps[0] + reps[0] + interleaved(gaps.drop_first(), reps.drop_first())
    }
}

/// `Regex::new`: tells whether the crate compiles `pattern`.
#[verifier::external_body]
pub(crate) fn compiles(pattern: &str) -> (r: bool)
    ensures
        r == pattern_compiles(pattern@),
{
    regex::Regex::new(pattern).is_ok()
}

/// `Regex::is_match` on `text`, of the expression that `Regex::new` makes
/// of `pattern`.
#[verifier::external_body]
pub(crate) fn is_match(pattern: &str, text: &[char]) -> (r: bool)
    requires
        pattern_compiles(pattern@),
    ensures
        r == pattern_matches(pattern@, text@),
{
    let haystack = String::from_iter(text.iter());
    regex::Regex::new(pattern).unwrap().is_match(&haystack)
}

/// `Regex::replace_all` on `text`, of the expression that `Regex::new`
/// makes of `pattern`, with a replacement string in which the crate expands
/// the group references.
#[verifier::external_body]
pub(crate) fn replace_all(pattern: &str, text: &[char], template: &str) -> (r: Vec<char>)
    requires
        pattern_compiles(pattern@),
    ensures
        r@ == pattern_replaced(pattern@, text@, template@),
{
    let haystack = String::from_iter(text.iter());
    regex::Regex::new(pattern).unwrap().replace_all(&haystack, template).chars().collect()
}

/// `Regex::captures_iter` on `text`, of the expression that `Regex::new`
/// makes of `pattern`: the groups of every match, in the order in which the
/// iterator yields the matches.
#[verifier::external_body]
pub(crate) fn captures_all(pattern: &str, text: &[char]) -> (r: Vec<Vec<Option<Vec<char>>>>)
    requires
        pattern_compiles(pattern@),
    ensures
        match_texts(r@) == pattern_captures(pattern@, text@),
{
    let haystack = String::from_iter(text.iter());
    regex::Regex::new(pattern).unwrap().captures_iter(&haystack).map(
        |found| found.iter().map(|g| g.map(|m| m.as_str().chars().collect())).collect(),
    ).collect()
}

/// `Regex::split` on `text`, of the expression that `Regex::new` makes of
/// `pattern`: the substrings between the matches, in the order in which the
/// iterator yields them.
#[verifier::external_body]
pub(crate) fn split(pattern: &str, text: &[char]) -> (r: Vec<Vec<char>>)
    requires
        pattern_compiles(pattern@),
    ensures
        texts(r@) == pattern_gaps(pattern@, text@),
{
    let haystack = String::from_iter(text.iter());
    regex::Regex::new(pattern).unwrap().split(&haystack).map(|p| p.chars().collect()).collect()
}

/// The text of group `n` of a match.
pub fn group<'a>(groups: &'a Vec<Option<Vec<char>>>, n: usize) -> (r: &'a [char])
    ensures
        r@ == group_text(group_texts(groups@), n as int),
{
    if n < groups.len() {
        match &groups[n] {
            Some(t) => t.as_slice(),
            None => {
                let empty: &[char] = &[];
                empty
            },
        }
    } else {
        let empty: &[char] = &[];
        empty
    }
}

/// Puts rewritten text together: the gaps and the replacements in turn.
pub fn interleave(gaps: &Vec<Vec<char>>, reps: &Vec<Vec<char>>) -> (r: Vec<char>)
    ensures
        r@ == interleaved(texts(gaps@), texts(reps@)),
{
    let mut out: Vec<char> = Vec::new();
    let mut i: usize = 0;
    proof {
        assert(texts(gaps@).skip(0) == texts(gaps@));
        assert(texts(reps@).skip(0) == texts(reps@));
    }
    while i < gaps.len() || i < reps.len()
        invariant
            out@ + interleaved(
                texts(gaps@).skip(if i <= gaps.len() { i as int } else { gaps.len() as int }),
                texts(reps@).skip(if i <= reps.len() { i as int } else { reps.len() as int }),
            ) == interleaved(texts(gaps@), texts(reps@)),
        decreases (if i <= gaps.len() { gaps.len() - i } else { 0 }) + (if i <= reps.len() {
            reps.len() - i
        } else {
            0
        }),
    {
        let ghost g = texts(gaps@).skip(if i <= gaps.len() { i as int } else { gaps.len() as int });
        let ghost p = texts(reps@).skip(if i <= reps.len() { i as int } else { reps.len() as int });
        if i < gaps.len() {
            push_chars(&mut out, gaps[i].as_slice());
            proof {
                assert(g.drop_first() == texts(gaps@).skip(i + 1));
            }
        }
        if i < reps.len() {
            push_chars(&mut out, reps[i].as_slice());
            proof {
                assert(p.drop_first() == texts(reps@).skip(i + 1));
            }
        }
        i += 1;
    }
    out
}

} // verus!
