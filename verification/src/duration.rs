//! Finding the duration that a watch page states in one of its scripts.
//!
//! The duration stands behind the key `approxDurationMs`, as a quoted run of
//! digits. The search for it is left to the `regex` crate, whose digit class
//! takes in every decimal digit of Unicode.

use vstd::prelude::*;

verus! {

/// Matches the key and captures the digits that follow it.
pub const DURATION_PATTERN: &'static str = "\"approxDurationMs\":\"(\\d+)\"";

/// The text that capture group `group` holds in the leftmost match of
/// `pattern` in `haystack`. `Some(None)` where the pattern matches nowhere
/// or the group took no part in the match, `None` where `regex` refuses the
/// pattern.
pub uninterp spec fn regex_group(pattern: Seq<char>, haystack: Seq<char>, group: usize) -> Option<
    Option<Seq<char>>,
>;

/// Compiles `pattern` with `regex::Regex::new`, searches `haystack` with
/// `Regex::captures` and reads the group with `Captures::get`.
///
/// Not proved: that the result is the one that `regex_group` names, which
/// says no more than that these calls depend on the three arguments alone.
#[verifier::external_body]
fn match_group(pattern: &str, haystack: &str, group: usize) -> (r: Option<Option<String>>)
    ensures
        r.deep_view() == regex_group(pattern@, haystack@, group),
{
    let compiled = regex::Regex::new(pattern).ok()?;
    let found = compiled.captures(haystack).and_then(|found| found.get(group));
    Some(found.map(|m| m.as_str().to_string()))
}

/// The digits behind the first occurrence of the key in the first of
/// `texts` that has one. `Some(None)` where none has, `None` where the
/// pattern is refused before an occurrence is found.
pub open spec fn duration_in_texts(texts: Seq<Seq<char>>) -> Option<Option<Seq<char>>>
    decreases texts.len(),
{
    if texts.len() == 0 {
        Some(None)
    } else {
        match regex_group(DURATION_PATTERN@, texts[0], 1) {
            Some(None) => duration_in_texts(texts.drop_first()),
            found => found,
        }
    }
}

/// The same over the text nodes of several script blocks, block by block.
pub open spec fn duration_in_scripts(scripts: Seq<Seq<Seq<char>>>) -> Option<Option<Seq<char>>>
    decreases scripts.len(),
{
    if scripts.len() == 0 {
        Some(None)
    } else {
        match duration_in_texts(scripts[0]) {
            Some(None) => duration_in_scripts(scripts.drop_first()),
            found => found,
        }
    }
}

/// Searches the text nodes of one script block, in order.
fn find_in_texts(texts: &Vec<String>) -> (r: Option<Option<String>>)
    ensures
        r.deep_view() == duration_in_texts(texts.deep_view()),
{
    let ghost all = texts.deep_view();
    let mut i: usize = 0;
    assert(all.skip(0) =~= all);
    while i < texts.len()
        invariant
            i <= texts.len(),
            all == texts.deep_view(),
            duration_in_texts(all) == duration_in_texts(all.skip(i as int)),
        decreases texts.len() - i,
    {
        let found = match_group(DURATION_PATTERN, texts[i].as_str(), 1);
        proof {
            assert(all.skip(i as int)[0] == texts[i as int]@);
            assert(all.skip(i as int).drop_first() =~= all.skip(i + 1));
        }
        match found {
            Some(None) => {},
            _ => {
                return found;
            },
        }
        i += 1;
    }
    Some(None)
}

/// Searches the script blocks of a page for the duration, in order.
pub fn find_duration(scripts: &Vec<Vec<String>>) -> (r: Option<Option<String>>)
    ensures
        r.deep_view() == duration_in_scripts(scripts.deep_view()),
{
    let ghost all = scripts.deep_view();
    let mut i: usize = 0;
    assert(all.skip(0) =~= all);
    while i < scripts.len()
        invariant
            i <= scripts.len(),
            all == scripts.deep_view(),
            duration_in_scripts(all) == duration_in_scripts(all.skip(i as int)),
        decreases scripts.len() - i,
    {
        let found = find_in_texts(&scripts[i]);
        proof {
            assert(all.skip(i as int)[0] == scripts[i as int].deep_view());
            assert(all.skip(i as int).drop_first() =~= all.skip(i + 1));
        }
        match found {
            Some(None) => {},
            _ => {
                return found;
            },
        }
        i += 1;
    }
    Some(None)
}

} // verus!
