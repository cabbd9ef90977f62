//! File patterns: regular expressions, compiled and matched by the `regex`
//! crate, and the choice of the lines that a pattern selects.

use vstd::prelude::*;
use regex::bytes::Regex;
use crate::text::views;

verus! {

/// Whether `regex::bytes::Regex::new` compiles `pattern`.
pub uninterp spec fn regex_compiles(pattern: Seq<char>) -> bool;

/// Whether `regex::bytes::Regex::is_match`, called on the regular expression
/// compiled from `pattern`, finds a match anywhere in the UTF-8 bytes of `text`.
pub uninterp spec fn regex_is_match(pattern: Seq<char>, text: Seq<char>) -> bool;

/// Calls `regex::bytes::Regex::new` on `pattern` and, where that compiles,
/// `Regex::is_match` on the bytes of `text`. The contract names the two
/// results and claims nothing else of them: `None` exactly when the pattern
/// does not compile, else whether it matches.
#[verifier::external_body]
fn regex_match(pattern: &str, text: &str) -> (matched: Option<bool>)
    ensures
        matched is Some <==> regex_compiles(pattern@),
        matched matches Some(b) ==> b == regex_is_match(pattern@, text@),
{
    match Regex::new(pattern) {
        Ok(re) => Some(re.is_match(text.as_bytes())),
        Err(_) => None,
    }
}

/// Tells whether `pattern` is a regular expression that compiles.
pub fn is_valid(pattern: &str) -> (valid: bool)
    ensures
        valid == regex_compiles(pattern@),
{
    regex_match(pattern, "").is_some()
}

/// For each line, whether `pattern` matches it; `None` where the pattern does
/// not compile.
pub fn match_all(pattern: &str, lines: &Vec<String>) -> (matched: Option<Vec<bool>>)
    ensures
        matched is Some <==> regex_compiles(pattern@),
        matched matches Some(m) ==> m@ == matches_of(pattern@, views(lines@)),
{
    if !is_valid(pattern) {
        return None;
    }
    let mut m: Vec<bool> = Vec::new();
    let mut i: usize = 0;
    while i < lines.len()
        invariant
            0 <= i <= lines.len(),
            regex_compiles(pattern@),
            m@ == matches_of(pattern@, views(lines@)).take(i as int),
        decreases lines.len() - i,
    {
        let hit = match regex_match(pattern, lines[i].as_str()) {
            Some(b) => b,
            None => false,
        };
        proof {
            assert(m@.push(hit) =~= matches_of(pattern@, views(lines@)).take(i + 1));
        }
        m.push(hit);
        i = i + 1;
    }
    proof {
        assert(matches_of(pattern@, views(lines@)).take(i as int) =~= matches_of(
            pattern@,
            views(lines@),
        ));
    }
    Some(m)
}

/// For each line, whether `pattern` matches it.
pub open spec fn matches_of(pattern: Seq<char>, lines: Seq<Seq<char>>) -> Seq<bool> {
    Seq::new(lines.len(), |i: int| regex_is_match(pattern, lines[i]))
}

/// The lines that are not empty and are marked in `matched`, in their order.
/// A line without a mark counts as not marked.
pub open spec fn selected(lines: Seq<Seq<char>>, matched: Seq<bool>) -> Seq<Seq<char>>
    decreases lines.len(),
{
    if lines.len() == 0 {
        Seq::empty()
    } else {
        let rest = selected(lines.drop_last(), matched);
        let last = lines.len() - 1;
        if lines[last].len() > 0 && last < matched.len() && matched[last] {
            rest.push(lines[last])
        } else {
            rest
        }
    }
}

/// Keeps the lines that are not empty and are marked in `matched`.
pub fn select(lines: &Vec<String>, matched: &Vec<bool>) -> (kept: Vec<String>)
    ensures
        views(kept@) == selected(views(lines@), matched@),
{
    let mut kept: Vec<String> = Vec::new();
    let mut i: usize = 0;
    while i < lines.len()
        invariant
            0 <= i <= lines.len(),
            views(kept@) == selected(views(lines@).take(i as int), matched@),
        decreases lines.len() - i,
    {
        let marked = i < matched.len() && matched[i];
        let filled = !lines[i].as_str().is_empty();
        proof {
            let next = views(lines@).take(i + 1);
            assert(next.drop_last() =~= views(lines@).take(i as int));
            assert(next[i as int] == lines@[i as int]@);
        }
        if filled && marked {
            let line = lines[i].clone();
            proof {
                assert(views(kept@.push(line)) =~= views(kept@).push(line@));
            }
            kept.push(line);
        }
        i = i + 1;
    }
    proof {
        assert(views(lines@).take(i as int) =~= views(lines@));
    }
    kept
}

/// The lines that are not empty and that `pattern` matches, in their order.
pub open spec fn matching(pattern: Seq<char>, lines: Seq<Seq<char>>) -> Seq<Seq<char>> {
    lines.filter(|line: Seq<char>| line.len() > 0 && regex_is_match(pattern, line))
}

/// Selecting by marks that say, line by line, whether the pattern matches
/// gives the lines that are not empty and that the pattern matches.
pub proof fn lemma_selected_matching(
    pattern: Seq<char>,
    lines: Seq<Seq<char>>,
    matched: Seq<bool>,
)
    requires
        matched.len() >= lines.len(),
        forall|i: int| 0 <= i < lines.len() ==> matched[i] == regex_is_match(pattern, lines[i]),
    ensures
        selected(lines, matched) == matching(pattern, lines),
    decreases lines.len(),
{
    reveal(Seq::filter);
    if lines.len() > 0 {
        lemma_selected_matching(pattern, lines.drop_last(), matched);
    }
}

/// The lines of `lines` that are not empty and that `pattern` matches, or
/// `None` where the pattern does not compile.
pub fn filter_matching(pattern: &str, lines: &Vec<String>) -> (kept: Option<Vec<String>>)
    ensures
        kept is Some <==> regex_compiles(pattern@),
        kept matches Some(k) ==> views(k@) == matching(pattern@, views(lines@)),
{
    match match_all(pattern, lines) {
        Some(matched) => {
            proof {
                lemma_selected_matching(pattern@, views(lines@), matched@);
            }
            Some(select(lines, &matched))
        },
        None => None,
    }
}

} // verus!
