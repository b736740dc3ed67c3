//! Version comparison and the tool's random greetings.

use vstd::prelude::*;
use vstd::string::*;
use rand::seq::SliceRandom;
use crate::text::{trim, trim_spec};

verus! {

/// What comparing two versions with `semver` gives: `None` where `semver::Version::parse`
/// rejects either text, else whether the second version is greater than the first in semver's
/// ordering.
pub uninterp spec fn semver_greater(current: Seq<char>, latest: Seq<char>) -> Option<bool>;

/// Parses both texts with `semver::Version::parse` and tells whether `latest` is greater than
/// `current`; `None` where either does not parse. The result is named by `semver_greater`.
#[verifier::external_body]
fn semver_newer(current: &str, latest: &str) -> (r: Option<bool>)
    ensures
        r == semver_greater(current@, latest@),
{
    match (semver::Version::parse(current), semver::Version::parse(latest)) {
        (Ok(c), Ok(l)) => Some(l > c),
        _ => None,
    }
}

/// Picks one of `options` with `rand`'s `SliceRandom::choose` and the thread-local generator.
/// Which one is left to chance; there is one exactly where `options` is not empty.
#[verifier::external_body]
fn choose_one(options: &[&'static str]) -> (r: Option<&'static str>)
    ensures
        (r is None) == (options@.len() == 0),
        r matches Some(x) ==> exists|i: int| 0 <= i < options@.len() && x@ == (#[trigger] options@[i])@,
{
    options.choose(&mut rand::thread_rng()).copied()
}

/// `s` without its leading `c`s (`str::trim_start_matches`).
pub open spec fn strip_leading(s: Seq<char>, c: char) -> Seq<char>
    decreases s.len(),
{
    if s.len() > 0 && s[0] == c {
        strip_leading(s.drop_first(), c)
    } else {
        s
    }
}

/// A version as compared: without leading `v`s, then trimmed.
pub open spec fn clean_version(s: Seq<char>) -> Seq<char> {
    trim_spec(strip_leading(s, 'v'))
}

/// `s` without its leading `c`s.
pub fn trim_start_char(s: &str, c: char) -> (r: &str)
    ensures
        r@ == strip_leading(s@, c),
{
    let n = s.unicode_len();
    let mut i: usize = 0;
    assert(s@.skip(0) =~= s@);
    while i < n && s.get_char(i) == c
        invariant
            i <= n,
            n == s@.len(),
            strip_leading(s@.skip(i as int), c) == strip_leading(s@, c),
        decreases n - i,
    {
        assert(s@.skip(i as int).drop_first() =~= s@.skip(i + 1));
        i += 1;
    }
    let r = s.substring_char(i, n);
    assert(r@ =~= s@.skip(i as int));
    r
}

/// Compares two versions, each without leading `v`s and trimmed: whether `latest` is newer,
/// or `None` where either is not a version.
pub fn version_order(current: &str, latest: &str) -> (r: Option<bool>)
    ensures
        r == semver_greater(clean_version(current@), clean_version(latest@)),
{
    let c = trim(trim_start_char(current, 'v'));
    let l = trim(trim_start_char(latest, 'v'));
    semver_newer(c, l)
}

/// Whether `latest` is a newer version than `current`; not where either is not a version.
pub fn is_newer_version(current: &str, latest: &str) -> (r: bool)
    ensures
        r == (semver_greater(clean_version(current@), clean_version(latest@)) == Some(true)),
{
    match version_order(current, latest) {
        Some(b) => b,
        None => false,
    }
}

/// The lines shown while a scan starts.
pub open spec fn splash_messages() -> Seq<Seq<char>> {
    seq![
        "\u{f0}\u{178}\u{201d}\u{17d} Generating list..."@,
        "\u{f0}\u{178}\u{201d}\u{17d} Scraping data..."@,
        "\u{f0}\u{178}\u{201d}\u{17d} Spinning web..."@,
        "\u{f0}\u{178}\u{201d}\u{17d} Hunting threats..."@,
        "\u{f0}\u{178}\u{201d}\u{17d} Collecting indicators..."@,
    ]
}

/// The lines shown on leaving.
pub open spec fn exit_messages() -> Seq<Seq<char>> {
    seq![
        "Bye... \u{f0}\u{178}\u{2018}\u{2039}\u{f0}\u{178}\u{2dc}\u{a2}"@,
        "Cya... \u{f0}\u{178}\u{2018}\u{2039}\u{f0}\u{178}\u{2dc}\u{a2}"@,
        "Byeeeeeeeeeeee... \u{f0}\u{178}\u{2018}\u{2039}\u{f0}\u{178}\u{2dc}\u{a2}"@,
        "Until next time... \u{f0}\u{178}\u{2018}\u{2039}"@,
        "Happy hunting! \u{f0}\u{178}\u{2018}\u{2039}"@,
    ]
}

/// One of the lines shown while a scan starts, at random.
pub fn get_random_splash() -> (r: &'static str)
    ensures
        splash_messages().contains(r@),
{
    let options: Vec<&'static str> = vec![
        "\u{f0}\u{178}\u{201d}\u{17d} Generating list...",
        "\u{f0}\u{178}\u{201d}\u{17d} Scraping data...",
        "\u{f0}\u{178}\u{201d}\u{17d} Spinning web...",
        "\u{f0}\u{178}\u{201d}\u{17d} Hunting threats...",
        "\u{f0}\u{178}\u{201d}\u{17d} Collecting indicators...",
    ];
    let r = match choose_one(options.as_slice()) {
        Some(s) => s,
        None => options[0],
    };
    proof {
        let i = choose|i: int| 0 <= i < options@.len() && r@ == (#[trigger] options@[i])@;
        assert(splash_messages()[i] == r@);
    }
    r
}

/// One of the lines shown on leaving, at random.
pub fn get_random_exit_message() -> (r: &'static str)
    ensures
        exit_messages().contains(r@),
{
    let options: Vec<&'static str> = vec![
        "Bye... \u{f0}\u{178}\u{2018}\u{2039}\u{f0}\u{178}\u{2dc}\u{a2}",
        "Cya... \u{f0}\u{178}\u{2018}\u{2039}\u{f0}\u{178}\u{2dc}\u{a2}",
        "Byeeeeeeeeeeee... \u{f0}\u{178}\u{2018}\u{2039}\u{f0}\u{178}\u{2dc}\u{a2}",
        "Until next time... \u{f0}\u{178}\u{2018}\u{2039}",
        "Happy hunting! \u{f0}\u{178}\u{2018}\u{2039}",
    ];
    let r = match choose_one(options.as_slice()) {
        Some(s) => s,
        None => options[0],
    };
    proof {
        let i = choose|i: int| 0 <= i < options@.len() && r@ == (#[trigger] options@[i])@;
        assert(exit_messages()[i] == r@);
    }
    r
}

} // verus!
