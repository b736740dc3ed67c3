//! Searching and filtering the lines of the reports.

use vstd::prelude::*;
use vstd::string::*;
use crate::config::ReportKind;
use crate::export::export_alias;
use crate::patterns::{leftmost_match, regex_leftmost};
use crate::text::{str_eq, trim, trim_spec};

verus! {

/// One matching line of a report.
#[derive(Debug)]
pub struct SearchResult {
    pub file_name: String,
    pub line_number: usize,
    pub content: String,
    pub matched_term: String,
}

/// Why a search or filter could not run.
#[derive(Debug, PartialEq, Eq, Structural)]
pub enum SearchError {
    InvalidPattern,
    UnknownFeedType,
}

pub struct Search;

/// The pattern a search term becomes: the term itself, a regular expression, matched
/// regardless of case (`(?i)` before it) unless the search is case-sensitive.
pub open spec fn search_pattern(term: Seq<char>, case_sensitive: bool) -> Seq<char> {
    if case_sensitive {
        term
    } else {
        "(?i)"@ + term
    }
}

/// The result a matching line gives.
pub open spec fn hit(name: Seq<char>, i: int, line: Seq<char>, m: Seq<char>, r: SearchResult) -> bool {
    &&& r.file_name@ == name
    &&& r.line_number == i + 1
    &&& r.content@ == trim_spec(line)
    &&& r.matched_term@ == m
}

/// The positions of the lines with a match, in order.
pub open spec fn matching_lines(pattern: Seq<char>, lines: Seq<Seq<char>>) -> Seq<int>
    decreases lines.len(),
{
    if lines.len() == 0 {
        seq![]
    } else {
        let p = matching_lines(pattern, lines.drop_last());
        match regex_leftmost(pattern, lines.last()) {
            Some(Some(_)) => p.push(lines.len() - 1),
            _ => p,
        }
    }
}

/// Whether the pattern failed to compile on some line.
pub open spec fn pattern_fails(pattern: Seq<char>, lines: Seq<Seq<char>>) -> bool {
    exists|i: int| 0 <= i < lines.len() && (#[trigger] regex_leftmost(pattern, lines[i])) is None
}

/// `rs` lists the matching lines of a report, in order.
pub open spec fn lists_matches(
    rs: Seq<SearchResult>,
    name: Seq<char>,
    pattern: Seq<char>,
    lines: Seq<Seq<char>>,
) -> bool {
    let ms = matching_lines(pattern, lines);
    &&& rs.len() == ms.len()
    &&& forall|k: int| 0 <= k < ms.len() ==> match_ok(name, pattern, lines, ms[k], #[trigger] rs[k])
}

/// `r` is the result of line `i`, which has a match.
pub open spec fn match_ok(
    name: Seq<char>,
    pattern: Seq<char>,
    lines: Seq<Seq<char>>,
    i: int,
    r: SearchResult,
) -> bool {
    &&& 0 <= i < lines.len()
    &&& match regex_leftmost(pattern, lines[i]) {
        Some(Some(m)) => hit(name, i, lines[i], m, r),
        _ => false,
    }
}

/// The positions of the non-blank lines that could be read, in order.
pub open spec fn listed_lines(lines: Seq<Option<Seq<char>>>) -> Seq<int>
    decreases lines.len(),
{
    if lines.len() == 0 {
        seq![]
    } else {
        let p = listed_lines(lines.drop_last());
        match lines.last() {
            Some(l) => if trim_spec(l).len() > 0 {
                p.push(lines.len() - 1)
            } else {
                p
            },
            None => p,
        }
    }
}

/// The feeds a FILTER feed type designates (compared exactly); `None` for an unknown type, and
/// all of them, in their usual order, where no type is given.
pub open spec fn filter_feeds(feed_type: Option<Seq<char>>) -> Option<Seq<ReportKind>> {
    match feed_type {
        None => Some(crate::config::spec_all_reports()),
        Some(t) => if t == "payload"@ || t == "payloads"@ {
            Some(seq![ReportKind::Payload])
        } else if t == "amp"@ {
            Some(seq![ReportKind::Amp])
        } else if t == "c2"@ || t == "c2servers"@ || t == "c2-servers"@ {
            Some(seq![ReportKind::C2])
        } else if t == "hex"@ || t == "hashes"@ {
            Some(seq![ReportKind::Hex])
        } else if t == "haus"@ || t == "urlhaus"@ || t == "url-haus"@ {
            Some(seq![ReportKind::Haus])
        } else if t == "phish"@ || t == "phishtank"@ || t == "phish-tank"@ {
            Some(seq![ReportKind::Phish])
        } else if t == "top100"@ || t == "top"@ || t == "top-100"@ {
            Some(seq![ReportKind::Top100])
        } else {
            None
        },
    }
}

/// The lines of a report where all of them could be read.
pub open spec fn all_read(lines: Seq<Option<Seq<char>>>) -> Option<Seq<Seq<char>>> {
    if forall|i: int| 0 <= i < lines.len() ==> (#[trigger] lines[i]) is Some {
        Some(lines.map_values(|o: Option<Seq<char>>| o.unwrap()))
    } else {
        None
    }
}

/// The views of optional strings.
pub open spec fn line_views(v: Seq<Option<String>>) -> Seq<Option<Seq<char>>> {
    v.map_values(|o: Option<String>| match o {
        Some(s) => Some(s@),
        None => None,
    })
}

/// What searching the reports of kinds `ks` with a valid pattern gives: for each such report
/// whose lines could all be read, in the order given, its matching lines.
pub open spec fn searched(
    files: Seq<(ReportKind, Vec<Option<String>>)>,
    ks: Seq<ReportKind>,
    pattern: Seq<char>,
    rs: Seq<SearchResult>,
) -> bool
    decreases files.len(),
{
    if files.len() == 0 {
        rs.len() == 0
    } else {
        let (kind, lines) = files.last();
        match all_read(line_views(lines@)) {
            Some(ls) => if ks.contains(kind) {
                let n = matching_lines(pattern, ls).len();
                &&& n <= rs.len()
                &&& searched(files.drop_last(), ks, pattern, rs.take(rs.len() - n))
                &&& lists_matches(rs.skip(rs.len() - n), kind.spec_display_name(), pattern, ls)
            } else {
                searched(files.drop_last(), ks, pattern, rs)
            },
            None => searched(files.drop_last(), ks, pattern, rs),
        }
    }
}

/// Whether the pattern failed to compile on a line of a report of kinds `ks` that could be read.
pub open spec fn fails_somewhere(
    files: Seq<(ReportKind, Vec<Option<String>>)>,
    ks: Seq<ReportKind>,
    pattern: Seq<char>,
) -> bool {
    exists|j: int|
        0 <= j < files.len() && ks.contains(files[j].0) && match #[trigger] all_read(
            line_views(files[j].1@),
        ) {
            Some(ls) => pattern_fails(pattern, ls),
            None => false,
        }
}

/// The listing of the non-blank lines of the reports of kinds `ks`, in the order given.
pub open spec fn listed(
    files: Seq<(ReportKind, Vec<Option<String>>)>,
    ks: Seq<ReportKind>,
    rs: Seq<SearchResult>,
) -> bool
    decreases files.len(),
{
    if files.len() == 0 {
        rs.len() == 0
    } else {
        let (kind, lines) = files.last();
        if ks.contains(kind) {
            let ls = line_views(lines@);
            let ps = listed_lines(ls);
            &&& ps.len() <= rs.len()
            &&& listed(files.drop_last(), ks, rs.take(rs.len() - ps.len()))
            &&& lists_lines(rs.skip(rs.len() - ps.len()), kind.spec_display_name(), ls)
        } else {
            listed(files.drop_last(), ks, rs)
        }
    }
}

/// `rs` lists the non-blank readable lines of a report, in order.
pub open spec fn lists_lines(rs: Seq<SearchResult>, name: Seq<char>, ls: Seq<Option<Seq<char>>>) -> bool {
    let ps = listed_lines(ls);
    &&& rs.len() == ps.len()
    &&& forall|k: int| 0 <= k < ps.len() ==> line_ok(name, ls, ps[k], #[trigger] rs[k])
}

/// `r` lists line `i`, which could be read and is not blank.
pub open spec fn line_ok(name: Seq<char>, ls: Seq<Option<Seq<char>>>, i: int, r: SearchResult) -> bool {
    &&& 0 <= i < ls.len()
    &&& match ls[i] {
        Some(l) => hit(name, i, l, seq![], r),
        None => false,
    }
}

/// A line without a match leaves the listing as it is.
proof fn lemma_lists_matches_skip(
    rs: Seq<SearchResult>,
    name: Seq<char>,
    pattern: Seq<char>,
    lines: Seq<Seq<char>>,
    line: Seq<char>,
)
    requires
        lists_matches(rs, name, pattern, lines),
        !(regex_leftmost(pattern, line) matches Some(Some(_))),
    ensures
        lists_matches(rs, name, pattern, lines.push(line)),
{
    let cur = lines.push(line);
    assert(cur.drop_last() =~= lines);
    let ms = matching_lines(pattern, cur);
    assert(ms == matching_lines(pattern, lines));
    assert forall|k: int| 0 <= k < ms.len() implies match_ok(name, pattern, cur, ms[k], #[trigger] rs[k]) by {
        assert(match_ok(name, pattern, lines, ms[k], rs[k]));
        assert(cur[ms[k]] == lines[ms[k]]);
    }
    assert(rs.len() == ms.len());
}

/// A line with a match adds its result at the end of the listing.
proof fn lemma_lists_matches_hit(
    rs: Seq<SearchResult>,
    r: SearchResult,
    name: Seq<char>,
    pattern: Seq<char>,
    lines: Seq<Seq<char>>,
    line: Seq<char>,
)
    requires
        lists_matches(rs, name, pattern, lines),
        regex_leftmost(pattern, line) matches Some(Some(m)) && hit(name, lines.len() as int, line, m, r),
    ensures
        lists_matches(rs.push(r), name, pattern, lines.push(line)),
{
    let cur = lines.push(line);
    assert(cur.drop_last() =~= lines);
    let ms = matching_lines(pattern, cur);
    let pre = matching_lines(pattern, lines);
    assert(ms == pre.push(lines.len() as int));
    let out = rs.push(r);
    assert forall|k: int| 0 <= k < ms.len() implies match_ok(name, pattern, cur, ms[k], #[trigger] out[k]) by {
        if k < pre.len() {
            assert(match_ok(name, pattern, lines, pre[k], rs[k]));
            assert(out[k] == rs[k]);
            assert(cur[pre[k]] == lines[pre[k]]);
        } else {
            assert(out[k] == r);
            assert(cur[lines.len() as int] == line);
        }
    }
    assert(out.len() == ms.len());
}

/// The feeds a FILTER feed type designates; `None` for an unknown type.
pub fn filter_feed_kinds(feed_type: Option<&str>) -> (r: Option<Vec<ReportKind>>)
    ensures
        match filter_feeds(
            match feed_type {
                Some(t) => Some(t@),
                None => None,
            },
        ) {
            Some(ks) => r matches Some(v) && v@ == ks,
            None => r is None,
        },
{
    match feed_type {
        None => Some(crate::config::all_reports()),
        Some(t) => {
            if str_eq(t, "payload") || str_eq(t, "payloads") {
                Some(vec![ReportKind::Payload])
            } else if str_eq(t, "amp") {
                Some(vec![ReportKind::Amp])
            } else if str_eq(t, "c2") || str_eq(t, "c2servers") || str_eq(t, "c2-servers") {
                Some(vec![ReportKind::C2])
            } else if str_eq(t, "hex") || str_eq(t, "hashes") {
                Some(vec![ReportKind::Hex])
            } else if str_eq(t, "haus") || str_eq(t, "urlhaus") || str_eq(t, "url-haus") {
                Some(vec![ReportKind::Haus])
            } else if str_eq(t, "phish") || str_eq(t, "phishtank") || str_eq(t, "phish-tank") {
                Some(vec![ReportKind::Phish])
            } else if str_eq(t, "top100") || str_eq(t, "top") || str_eq(t, "top-100") {
                Some(vec![ReportKind::Top100])
            } else {
                None
            }
        },
    }
}

/// Whether `k` is among `ks`.
fn has_kind(ks: &Vec<ReportKind>, k: ReportKind) -> (r: bool)
    ensures
        r == ks@.contains(k),
{
    let mut i: usize = 0;
    while i < ks.len()
        invariant
            i <= ks@.len(),
            forall|j: int| 0 <= j < i ==> ks@[j] != k,
        decreases ks@.len() - i,
    {
        if ks[i] == k {
            assert(ks@[i as int] == k);
            return true;
        }
        i += 1;
    }
    false
}

/// The lines of a report, where all of them could be read.
fn all_lines(lines: &Vec<Option<String>>) -> (r: Option<Vec<String>>)
    ensures
        match all_read(line_views(lines@)) {
            Some(ls) => r matches Some(v) && crate::text::string_views(v@) == ls,
            None => r is None,
        },
{
    let ghost lv = line_views(lines@);
    let mut out: Vec<String> = Vec::new();
    let mut i: usize = 0;
    while i < lines.len()
        invariant
            i <= lines@.len(),
            lv == line_views(lines@),
            out@.len() == i,
            forall|j: int| 0 <= j < i ==> lv[j] == Some(#[trigger] out@[j]@),
        decreases lines@.len() - i,
    {
        match &lines[i] {
            Some(l) => {
                out.push(l.clone());
            },
            None => {
                assert(lv[i as int] is None);
                return None;
            },
        }
        i += 1;
    }
    assert forall|i: int| 0 <= i < lv.len() implies (#[trigger] lv[i]) is Some by {
        assert(lv[i] == Some(out@[i]@));
    }
    assert(crate::text::string_views(out@) =~= lv.map_values(|o: Option<Seq<char>>| o.unwrap())) by {
        assert forall|i: int| 0 <= i < lv.len() implies crate::text::string_views(out@)[i] == lv.map_values(
            |o: Option<Seq<char>>| o.unwrap(),
        )[i] by {
            assert(lv[i] == Some(out@[i]@));
        }
    }
    Some(out)
}

/// The non-blank readable lines of one report, in order.
fn list_file(file_name: &str, lines: &Vec<Option<String>>) -> (r: Vec<SearchResult>)
    ensures
        lists_lines(r@, file_name@, line_views(lines@)),
{
    let ghost lv = line_views(lines@);
    let mut out: Vec<SearchResult> = Vec::new();
    let mut i: usize = 0;
    assert(lv.take(0) =~= Seq::<Option<Seq<char>>>::empty());
    while i < lines.len()
        invariant
            i <= lines@.len(),
            lv == line_views(lines@),
            lists_lines(out@, file_name@, lv.take(i as int)),
        decreases lines@.len() - i,
    {
        let ghost pre = lv.take(i as int);
        let ghost cur = lv.take(i + 1);
        proof {
            assert(cur.drop_last() =~= pre);
            assert(cur.last() == lv[i as int]);
        }
        match &lines[i] {
            Some(l) => {
                let t = trim(l.as_str());
                if t.unicode_len() > 0 {
                    let r = SearchResult {
                        file_name: file_name.to_string(),
                        line_number: i + 1,
                        content: t.to_string(),
                        matched_term: String::new(),
                    };
                    proof {
                        lemma_lists_lines_push(out@, r, file_name@, pre, lv[i as int], true);
                    }
                    out.push(r);
                } else {
                    proof {
                        lemma_lists_lines_push(out@, out@[0], file_name@, pre, lv[i as int], false);
                    }
                }
            },
            None => {
                proof {
                    lemma_lists_lines_push(out@, out@[0], file_name@, pre, lv[i as int], false);
                }
            },
        }
        assert(pre.push(lv[i as int]) =~= cur);
        i += 1;
    }
    assert(lv.take(lines@.len() as int) =~= lv);
    out
}

/// Extending the lines of a report by one line extends the listing by its result, if it is
/// listed.
proof fn lemma_lists_lines_push(
    rs: Seq<SearchResult>,
    r: SearchResult,
    name: Seq<char>,
    ls: Seq<Option<Seq<char>>>,
    l: Option<Seq<char>>,
    added: bool,
)
    requires
        lists_lines(rs, name, ls),
        added <==> (l matches Some(x) && trim_spec(x).len() > 0),
        added ==> (l matches Some(x) && hit(name, ls.len() as int, x, seq![], r)),
    ensures
        lists_lines(if added { rs.push(r) } else { rs }, name, ls.push(l)),
{
    let cur = ls.push(l);
    assert(cur.drop_last() =~= ls);
    let ps = listed_lines(ls);
    let qs = listed_lines(cur);
    let out = if added { rs.push(r) } else { rs };
    if added {
        assert(qs == ps.push(ls.len() as int));
    } else {
        assert(qs == ps);
    }
    assert forall|k: int| 0 <= k < qs.len() implies line_ok(name, cur, qs[k], #[trigger] out[k]) by {
        if k < ps.len() {
            assert(line_ok(name, ls, ps[k], rs[k]));
            assert(out[k] == rs[k]);
            assert(cur[ps[k]] == ls[ps[k]]);
        } else {
            assert(cur[ls.len() as int] == l);
        }
    }
}

/// Searching the next report extends the results by its matching lines.
proof fn lemma_searched_step(
    files: Seq<(ReportKind, Vec<Option<String>>)>,
    ks: Seq<ReportKind>,
    pattern: Seq<char>,
    rs: Seq<SearchResult>,
    more: Seq<SearchResult>,
    j: int,
)
    requires
        0 <= j < files.len(),
        searched(files.take(j), ks, pattern, rs),
        match all_read(line_views(files[j].1@)) {
            Some(ls) => if ks.contains(files[j].0) {
                lists_matches(more, files[j].0.spec_display_name(), pattern, ls)
            } else {
                more.len() == 0
            },
            None => more.len() == 0,
        },
    ensures
        searched(files.take(j + 1), ks, pattern, rs + more),
{
    let t = files.take(j + 1);
    assert(t.drop_last() =~= files.take(j));
    assert(t.last() == files[j]);
    let all = rs + more;
    assert(all.take(all.len() - more.len()) =~= rs);
    assert(all.skip(all.len() - more.len()) =~= more);
    if more.len() == 0 {
        assert(all =~= rs);
    }
}

/// Listing the next report extends the results by its non-blank lines.
proof fn lemma_listed_step(
    files: Seq<(ReportKind, Vec<Option<String>>)>,
    ks: Seq<ReportKind>,
    rs: Seq<SearchResult>,
    more: Seq<SearchResult>,
    j: int,
)
    requires
        0 <= j < files.len(),
        listed(files.take(j), ks, rs),
        if ks.contains(files[j].0) {
            lists_lines(more, files[j].0.spec_display_name(), line_views(files[j].1@))
        } else {
            more.len() == 0
        },
    ensures
        listed(files.take(j + 1), ks, rs + more),
{
    let t = files.take(j + 1);
    assert(t.drop_last() =~= files.take(j));
    assert(t.last() == files[j]);
    let all = rs + more;
    assert(all.take(all.len() - more.len()) =~= rs);
    assert(all.skip(all.len() - more.len()) =~= more);
    if more.len() == 0 {
        assert(all =~= rs);
    }
}

/// Appends `more` to `out`.
fn append_results(out: &mut Vec<SearchResult>, more: Vec<SearchResult>)
    ensures
        final(out)@ == old(out)@ + more@,
{
    let ghost start = out@;
    let mut rest = more;
    let ghost m = rest@;
    while rest.len() > 0
        invariant
            out@ + rest@ == start + m,
        decreases rest@.len(),
    {
        let ghost before = out@;
        let x = rest.remove(0);
        out.push(x);
        assert(out@ + rest@ =~= before + seq![x] + rest@);
        assert(before + seq![x] + rest@ =~= start + m);
    }
    assert(out@ =~= start + m);
}

/// Searches the reports of kinds `ks` for `pattern`; an error where the pattern does not
/// compile.
fn search_files(
    files: &Vec<(ReportKind, Vec<Option<String>>)>,
    ks: &Vec<ReportKind>,
    pattern: &str,
) -> (r: Result<Vec<SearchResult>, SearchError>)
    ensures
        match r {
            Ok(rs) => !fails_somewhere(files@, ks@, pattern@) && searched(files@, ks@, pattern@, rs@),
            Err(e) => e == SearchError::InvalidPattern && fails_somewhere(files@, ks@, pattern@),
        },
{
    let mut out: Vec<SearchResult> = Vec::new();
    let mut j: usize = 0;
    assert(files@.take(0) =~= Seq::<(ReportKind, Vec<Option<String>>)>::empty());
    while j < files.len()
        invariant
            j <= files@.len(),
            searched(files@.take(j as int), ks@, pattern@, out@),
            !fails_somewhere(files@.take(j as int), ks@, pattern@),
        decreases files@.len() - j,
    {
        let kind = files[j].0;
        let ghost before = out@;
        let mut more: Vec<SearchResult> = Vec::new();
        if has_kind(ks, kind) {
            match all_lines(&files[j].1) {
                Some(ls) => {
                    match Search::search_file(kind.display_name(), &ls, pattern) {
                        Ok(rs) => {
                            more = rs;
                        },
                        Err(e) => {
                            assert(fails_somewhere(files@, ks@, pattern@)) by {
                                assert(all_read(line_views(files@[j as int].1@)) is Some);
                            }
                            return Err(e);
                        },
                    }
                },
                None => {},
            }
        }
        proof {
            lemma_searched_step(files@, ks@, pattern@, before, more@, j as int);
            assert forall|i: int|
                0 <= i < j + 1 && ks@.contains(files@.take(j + 1)[i].0) implies !match #[trigger] all_read(
                line_views(files@.take(j + 1)[i].1@),
            ) {
                Some(ls) => pattern_fails(pattern@, ls),
                None => false,
            } by {
                if i < j {
                    assert(files@.take(j + 1)[i] == files@.take(j as int)[i]);
                }
            }
        }
        append_results(&mut out, more);
        j += 1;
    }
    assert(files@.take(files@.len() as int) =~= files@);
    Ok(out)
}

/// Lists the non-blank readable lines of the reports of kinds `ks`.
fn list_files(files: &Vec<(ReportKind, Vec<Option<String>>)>, ks: &Vec<ReportKind>) -> (r: Vec<
    SearchResult,
>)
    ensures
        listed(files@, ks@, r@),
{
    let mut out: Vec<SearchResult> = Vec::new();
    let mut j: usize = 0;
    assert(files@.take(0) =~= Seq::<(ReportKind, Vec<Option<String>>)>::empty());
    while j < files.len()
        invariant
            j <= files@.len(),
            listed(files@.take(j as int), ks@, out@),
        decreases files@.len() - j,
    {
        let kind = files[j].0;
        let ghost before = out@;
        let mut more: Vec<SearchResult> = Vec::new();
        if has_kind(ks, kind) {
            more = list_file(kind.display_name(), &files[j].1);
        }
        proof {
            lemma_listed_step(files@, ks@, before, more@, j as int);
        }
        append_results(&mut out, more);
        j += 1;
    }
    assert(files@.take(files@.len() as int) =~= files@);
    out
}

impl Search {
    /// The pattern a search term becomes: the term, with `(?i)` before it unless the search is
    /// case-sensitive.
    pub fn build_pattern(term: &str, case_sensitive: bool) -> (r: String)
        ensures
            r@ == search_pattern(term@, case_sensitive),
    {
        if case_sensitive {
            term.to_string()
        } else {
            let mut p = String::new();
            p.append("(?i)");
            p.append(term);
            p
        }
    }

    /// Searches all reports for a term, a regular expression matched regardless of case unless
    /// the search is case-sensitive. Each entry pairs a report with its lines (`None` for a line that could
    /// not be read); a report with an unreadable line is passed over.
    pub fn search_all_reports(
        files: &Vec<(ReportKind, Vec<Option<String>>)>,
        term: &str,
        case_sensitive: bool,
    ) -> (r: Result<Vec<SearchResult>, SearchError>)
        ensures
            ({
                let p = search_pattern(term@, case_sensitive);
                let ks = crate::config::spec_all_reports();
                match r {
                    Ok(rs) => !fails_somewhere(files@, ks, p) && searched(files@, ks, p, rs@),
                    Err(e) => e == SearchError::InvalidPattern && fails_somewhere(files@, ks, p),
                }
            }),
    {
        let pattern = Search::build_pattern(term, case_sensitive);
        let ks = crate::config::all_reports();
        search_files(files, &ks, pattern.as_str())
    }

    /// The lines of the reports a feed type designates, those matching a pattern (regardless of
    /// case) where one is given. Each entry pairs a report with its lines (`None` for a line that
    /// could not be read).
    pub fn filter_reports(
        files: &Vec<(ReportKind, Vec<Option<String>>)>,
        feed_type: Option<&str>,
        pattern: Option<&str>,
    ) -> (r: Result<Vec<SearchResult>, SearchError>)
        ensures
            match filter_feeds(
                match feed_type {
                    Some(t) => Some(t@),
                    None => None,
                },
            ) {
                None => r == Err::<Vec<SearchResult>, SearchError>(SearchError::UnknownFeedType),
                Some(ks) => match pattern {
                    None => r matches Ok(rs) && listed(files@, ks, rs@),
                    Some(p) => {
                        let pat = search_pattern(p@, false);
                        match r {
                            Ok(rs) => !fails_somewhere(files@, ks, pat) && searched(files@, ks, pat, rs@),
                            Err(e) => e == SearchError::InvalidPattern && fails_somewhere(files@, ks, pat),
                        }
                    },
                },
            },
    {
        let ks = match filter_feed_kinds(feed_type) {
            Some(ks) => ks,
            None => {
                return Err(SearchError::UnknownFeedType);
            },
        };
        match pattern {
            None => Ok(list_files(files, &ks)),
            Some(p) => {
                let pat = Search::build_pattern(p, false);
                search_files(files, &ks, pat.as_str())
            },
        }
    }

    /// The matching lines of one report, each with the text of its leftmost match; an error
    /// where the pattern does not compile.
    pub fn search_file(file_name: &str, lines: &Vec<String>, pattern: &str) -> (r: Result<
        Vec<SearchResult>,
        SearchError,
    >)
        ensures
            match r {
                Ok(rs) => !pattern_fails(pattern@, crate::text::string_views(lines@))
                    && lists_matches(rs@, file_name@, pattern@, crate::text::string_views(lines@)),
                Err(e) => e == SearchError::InvalidPattern && pattern_fails(
                    pattern@,
                    crate::text::string_views(lines@),
                ),
            },
    {
        let ghost ls = crate::text::string_views(lines@);
        let mut out: Vec<SearchResult> = Vec::new();
        let mut i: usize = 0;
        assert(ls.take(0) =~= Seq::<Seq<char>>::empty());
        while i < lines.len()
            invariant
                i <= lines@.len(),
                ls == crate::text::string_views(lines@),
                !pattern_fails(pattern@, ls.take(i as int)),
                lists_matches(out@, file_name@, pattern@, ls.take(i as int)),
            decreases lines@.len() - i,
        {
            let ghost pre = ls.take(i as int);
            let ghost cur = ls.take(i + 1);
            proof {
                assert(cur.drop_last() =~= pre);
                assert(cur.last() == lines@[i as int]@);
            }
            match leftmost_match(pattern, lines[i].as_str()) {
                None => {
                    assert(pattern_fails(pattern@, ls)) by {
                        assert(ls[i as int] == lines@[i as int]@);
                    }
                    return Err(SearchError::InvalidPattern);
                },
                Some(found) => {
                    match found {
                        Some(m) => {
                            let ghost before = out@;
                            let content = trim(lines[i].as_str()).to_string();
                            let r = SearchResult {
                                file_name: file_name.to_string(),
                                line_number: i + 1,
                                content,
                                matched_term: m,
                            };
                            proof {
                                lemma_lists_matches_hit(before, r, file_name@, pattern@, pre, cur.last());
                                assert(pre.push(cur.last()) =~= cur);
                            }
                            out.push(r);
                        },
                        None => {
                            proof {
                                lemma_lists_matches_skip(out@, file_name@, pattern@, pre, cur.last());
                                assert(pre.push(cur.last()) =~= cur);
                            }
                        },
                    }
                    proof {
                        assert forall|j: int| 0 <= j < cur.len() implies !(#[trigger] regex_leftmost(
                            pattern@,
                            cur[j],
                        ) is None) by {
                            if j < pre.len() {
                                assert(cur[j] == pre[j]);
                            }
                        }
                    }
                },
            }
            i += 1;
        }
        assert(ls.take(lines@.len() as int) =~= ls);
        Ok(out)
    }
}


/// A FILTER feed type selects exactly the one report it names, the report that the same name
/// designates for EXPORT and VALIDATE; every such name but `payload-domains` is a feed type.
pub proof fn lemma_feed_type_selects_its_report(t: Seq<char>)
    ensures
        filter_feeds(Some(t)) matches Some(ks) ==> ks.len() == 1 && export_alias(t) == Some(ks[0]),
        export_alias(t) is Some && t != "payload-domains"@ ==> filter_feeds(Some(t)) == Some(
            seq![export_alias(t).unwrap()],
        ),
{
    reveal_strlit("payload");
    reveal_strlit("payloads");
    reveal_strlit("payload-domains");
    reveal_strlit("amp");
    reveal_strlit("c2");
    reveal_strlit("c2servers");
    reveal_strlit("c2-servers");
    reveal_strlit("hex");
    reveal_strlit("hashes");
    reveal_strlit("haus");
    reveal_strlit("urlhaus");
    reveal_strlit("url-haus");
    reveal_strlit("phish");
    reveal_strlit("phishtank");
    reveal_strlit("phish-tank");
    reveal_strlit("top100");
    reveal_strlit("top");
    reveal_strlit("top-100");
    if t == "payload-domains"@ {
        assert(t.len() == 15);
        assert(filter_feeds(Some(t)) is None);
    } else {
        assert(filter_feeds(Some(t)) matches Some(ks) ==> ks.len() == 1 && export_alias(t) == Some(
            ks[0],
        ));
    }
}

} // verus!
