//! The regular expressions that pick indicators out of report lines, matched by the `regex`
//! crate. What a match yields is named, not restated: the contracts of the callers speak of
//! these names.

use vstd::prelude::*;
use crate::text::string_views;

verus! {

/// The host of an `http` or `https` address, up to a slash or whitespace.
pub const URL_HOST_PATTERN: &'static str = "https?://([^/\\s]+)";

/// The host of an `http` or `https` address in a CSV line, up to a slash, comma or whitespace.
pub const CSV_HOST_PATTERN: &'static str = "https?://([^/,\\s]+)";

/// A dotted quad of one- to three-digit numbers, standing as a word of its own.
pub const IPV4_PATTERN: &'static str = "\\b(\\d{1,3}\\.\\d{1,3}\\.\\d{1,3}\\.\\d{1,3})\\b";

/// A hexadecimal MD5, SHA-1 or SHA-256 digest, standing as a word of its own.
pub const HASH_PATTERN: &'static str =
    "\\b([a-fA-F0-9]{32}|[a-fA-F0-9]{40}|[a-fA-F0-9]{64})\\b";

/// The host of a plain `http` address: everything up to the next slash.
pub const HTTP_HOST_PATTERN: &'static str = "http://([^/]*)";

/// What `regex::Regex::new(pattern)` and then `captures_iter(text)` yield: for each successive
/// non-overlapping match, the text of its first group (`None` where that group took no part in
/// the match). `None` as a whole where the pattern does not compile.
pub uninterp spec fn regex_first_groups(pattern: Seq<char>, text: Seq<char>) -> Option<
    Seq<Option<Seq<char>>>,
>;

/// What `regex::Regex::new(pattern)` and then `find(text)` yield: the text of the leftmost
/// match, if any. `None` as a whole where the pattern does not compile.
pub uninterp spec fn regex_leftmost(pattern: Seq<char>, text: Seq<char>) -> Option<
    Option<Seq<char>>,
>;

/// The views of optional strings.
pub open spec fn option_views(v: Seq<Option<String>>) -> Seq<Option<Seq<char>>> {
    v.map_values(|o: Option<String>| match o {
        Some(s) => Some(s@),
        None => None,
    })
}

/// Compiles `pattern` with `regex::Regex::new` and collects, over `captures_iter(text)`, the
/// first group of each match; `None` where the pattern does not compile. The result is named by
/// `regex_first_groups`; nothing more is claimed of it.
#[verifier::external_body]
pub(crate) fn first_groups(pattern: &str, text: &str) -> (r: Option<Vec<Option<String>>>)
    ensures
        match r {
            Some(v) => regex_first_groups(pattern@, text@) == Some(option_views(v@)),
            None => regex_first_groups(pattern@, text@) is None,
        },
{
    match regex::Regex::new(pattern) {
        Ok(re) => Some(
            re.captures_iter(text).map(|c| c.get(1).map(|m| m.as_str().to_string())).collect(),
        ),
        Err(_) => None,
    }
}

/// Compiles `pattern` with `regex::Regex::new` and returns the text of `find(text)`; `None`
/// where the pattern does not compile. The result is named by `regex_leftmost`.
#[verifier::external_body]
pub(crate) fn leftmost_match(pattern: &str, text: &str) -> (r: Option<Option<String>>)
    ensures
        match r {
            Some(m) => regex_leftmost(pattern@, text@) == Some(
                match m {
                    Some(s) => Some(s@),
                    None => None,
                },
            ),
            None => regex_leftmost(pattern@, text@) is None,
        },
{
    match regex::Regex::new(pattern) {
        Ok(re) => Some(re.find(text).map(|m| m.as_str().to_string())),
        Err(_) => None,
    }
}

/// The first group of the first match of `pattern` in `text` (what `captures(text)` and then
/// `get(1)` yield), if that match exists and the group took part in it.
pub open spec fn first_group(pattern: Seq<char>, text: Seq<char>) -> Option<Seq<char>> {
    match regex_first_groups(pattern, text) {
        Some(gs) => if gs.len() > 0 {
            gs[0]
        } else {
            None
        },
        None => None,
    }
}

/// The first group of the first match of `pattern` in `text`, if that match exists and the
/// group took part in it.
pub fn first_capture(pattern: &str, text: &str) -> (r: Option<String>)
    ensures
        match first_group(pattern@, text@) {
            Some(g) => r matches Some(x) && x@ == g,
            None => r is None,
        },
{
    match first_groups(pattern, text) {
        Some(gs) => {
            if gs.len() > 0 {
                match &gs[0] {
                    Some(g) => Some(g.clone()),
                    None => None,
                }
            } else {
                None
            }
        },
        None => None,
    }
}

/// The first groups of the matches of `pattern` in `text` that took part, in order; nothing
/// where the pattern does not compile.
pub open spec fn group_texts(pattern: Seq<char>, text: Seq<char>) -> Seq<Seq<char>> {
    match regex_first_groups(pattern, text) {
        Some(gs) => present(gs),
        None => seq![],
    }
}

/// The values that are present, in order.
pub open spec fn present(gs: Seq<Option<Seq<char>>>) -> Seq<Seq<char>>
    decreases gs.len(),
{
    if gs.len() == 0 {
        seq![]
    } else {
        match gs.last() {
            Some(g) => present(gs.drop_last()).push(g),
            None => present(gs.drop_last()),
        }
    }
}

/// The first groups of the matches of `pattern` in `text` that took part, in order; nothing
/// where the pattern does not compile.
pub fn captures(pattern: &str, text: &str) -> (r: Vec<String>)
    ensures
        string_views(r@) == group_texts(pattern@, text@),
{
    let mut out: Vec<String> = Vec::new();
    match first_groups(pattern, text) {
        None => {},
        Some(gs) => {
            let ghost gv = option_views(gs@);
            let mut i: usize = 0;
            assert(gv.take(0) =~= Seq::<Option<Seq<char>>>::empty());
            while i < gs.len()
                invariant
                    i <= gs@.len(),
                    gv == option_views(gs@),
                    string_views(out@) == present(gv.take(i as int)),
                decreases gs@.len() - i,
            {
                proof {
                    assert(gv.take(i + 1).drop_last() =~= gv.take(i as int));
                }
                match &gs[i] {
                    Some(g) => {
                        let ghost before = out@;
                        out.push(g.clone());
                        assert(string_views(out@) =~= string_views(before).push(g@));
                    },
                    None => {},
                }
                i += 1;
            }
            assert(gv.take(gs@.len() as int) =~= gv);
        },
    }
    out
}

} // verus!
