//! Line and distinct-indicator counts of the reports.

use vstd::prelude::*;
use vstd::string::*;
use crate::config::ReportKind;
use crate::patterns::{
    captures, first_capture, first_group, group_texts, CSV_HOST_PATTERN, HASH_PATTERN,
    URL_HOST_PATTERN,
};
use crate::reading::append_strings;
use crate::sets::{dedup, IndicatorSet};
use crate::text::{lower_all, lowered, lowercase, string_views, to_lowercase, trim, trim_spec};

verus! {

/// What the statistics say of one report.
#[derive(Debug)]
pub struct ReportStats {
    pub file_name: String,
    pub exists: bool,
    pub line_count: usize,
    pub unique_count: usize,
    pub file_size: u64,
    pub last_modified: Option<String>,
}

/// What was read of a report file: whether it exists, its size, when it was last modified (as
/// shown to the user), how many lines it has, and its lines where all of them could be read as
/// text.
#[derive(Debug)]
pub struct ReportFile {
    pub exists: bool,
    pub file_size: u64,
    pub last_modified: Option<String>,
    pub line_count: usize,
    pub lines: Option<Vec<String>>,
}

/// Totals over the reports.
#[derive(Debug)]
pub struct StatsSummary {
    pub total_reports: usize,
    pub existing_reports: usize,
    pub total_lines: usize,
    pub total_unique: usize,
    pub total_size: u64,
}

pub struct Statistics;

/// The host that the first address match of a payload line yields, lowercased.
pub open spec fn first_host(line: Seq<char>) -> Seq<Seq<char>> {
    match first_group(URL_HOST_PATTERN@, line) {
        Some(g) => seq![lowercase(g)],
        None => seq![],
    }
}

/// The values one line of a report contributes to its distinct count: the trimmed line for the
/// AMP and C2 reports, the first host for the payload report, every digest for the hex report,
/// every host for the URLhaus and PhishTank reports. The top-100 report has no such count.
pub open spec fn line_values(kind: ReportKind, line: Seq<char>) -> Seq<Seq<char>> {
    match kind {
        ReportKind::Payload => first_host(line),
        ReportKind::Amp | ReportKind::C2 => {
            let t = trim_spec(line);
            if t.len() == 0 {
                seq![]
            } else {
                seq![t]
            }
        },
        ReportKind::Hex => lowered(group_texts(HASH_PATTERN@, line)),
        ReportKind::Haus | ReportKind::Phish => lowered(group_texts(CSV_HOST_PATTERN@, line)),
        ReportKind::Top100 => seq![],
    }
}

/// The values all lines of a report contribute, in order.
pub open spec fn counted_values(kind: ReportKind, lines: Seq<Seq<char>>) -> Seq<Seq<char>>
    decreases lines.len(),
{
    if lines.len() == 0 {
        seq![]
    } else {
        counted_values(kind, lines.drop_last()) + line_values(kind, lines.last())
    }
}

/// The distinct count of a report whose lines could all be read.
pub open spec fn distinct_count(kind: ReportKind, lines: Seq<Seq<char>>) -> nat {
    dedup(counted_values(kind, lines)).len()
}

/// The statistics of report `kind` from what was read of its file. A report without a distinct
/// count (the top 100) counts every line as distinct; one whose lines could not be read has a
/// distinct count of 0.
pub open spec fn spec_stats(kind: ReportKind, f: ReportFile, s: ReportStats) -> bool {
    &&& s.file_name@ == kind.spec_display_name()
    &&& s.exists == f.exists
    &&& if !f.exists {
        &&& s.line_count == 0
        &&& s.unique_count == 0
        &&& s.file_size == 0
        &&& s.last_modified is None
    } else {
        &&& s.line_count == f.line_count
        &&& s.file_size == f.file_size
        &&& s.last_modified == f.last_modified
        &&& s.unique_count == if kind == ReportKind::Top100 {
            f.line_count as nat
        } else {
            match f.lines {
                Some(ls) => distinct_count(kind, string_views(ls@)),
                None => 0,
            }
        }
    }
}

/// The values one line contributes to the distinct count of report `kind`.
fn values_of_line(kind: ReportKind, line: &str) -> (r: Vec<String>)
    ensures
        string_views(r@) == line_values(kind, line@),
{
    let mut out: Vec<String> = Vec::new();
    match kind {
        ReportKind::Payload => {
            match first_capture(URL_HOST_PATTERN, line) {
                Some(g) => {
                    out.push(to_lowercase(g.as_str()));
                    assert(string_views(out@) =~= line_values(kind, line@));
                },
                None => {
                    assert(string_views(out@) =~= line_values(kind, line@));
                },
            }
        },
        ReportKind::Amp | ReportKind::C2 => {
            let t = trim(line);
            if t.unicode_len() > 0 {
                out.push(t.to_string());
            }
            assert(string_views(out@) =~= line_values(kind, line@));
        },
        ReportKind::Hex => {
            let gs = captures(HASH_PATTERN, line);
            out = lower_all(&gs);
        },
        ReportKind::Haus | ReportKind::Phish => {
            let gs = captures(CSV_HOST_PATTERN, line);
            out = lower_all(&gs);
        },
        ReportKind::Top100 => {
            assert(string_views(out@) =~= line_values(kind, line@));
        },
    }
    out
}

impl Statistics {
    /// The number of distinct values the lines of report `kind` contribute.
    pub fn count_unique(kind: ReportKind, lines: &Vec<String>) -> (r: usize)
        ensures
            r == distinct_count(kind, string_views(lines@)),
    {
        let ghost ls = string_views(lines@);
        let mut all: Vec<String> = Vec::new();
        let mut i: usize = 0;
        assert(ls.take(0) =~= Seq::<Seq<char>>::empty());
        while i < lines.len()
            invariant
                i <= lines@.len(),
                ls == string_views(lines@),
                string_views(all@) == counted_values(kind, ls.take(i as int)),
            decreases lines@.len() - i,
        {
            let vals = values_of_line(kind, lines[i].as_str());
            append_strings(&mut all, vals);
            proof {
                assert(ls.take(i + 1).drop_last() =~= ls.take(i as int));
                assert(ls.take(i + 1).last() == lines@[i as int]@);
            }
            i += 1;
        }
        assert(ls.take(lines@.len() as int) =~= ls);
        let set = IndicatorSet::from_strings(&all);
        set.len()
    }

    /// The number of distinct non-blank trimmed lines.
    pub fn count_unique_lines(lines: &Vec<String>) -> (r: usize)
        ensures
            r == distinct_count(ReportKind::Amp, string_views(lines@)),
    {
        Statistics::count_unique(ReportKind::Amp, lines)
    }

    /// The number of distinct hosts, lowercased, of the first address on each line.
    pub fn count_unique_urls(lines: &Vec<String>) -> (r: usize)
        ensures
            r == distinct_count(ReportKind::Payload, string_views(lines@)),
    {
        Statistics::count_unique(ReportKind::Payload, lines)
    }

    /// The number of distinct digests, lowercased.
    pub fn count_unique_hashes(lines: &Vec<String>) -> (r: usize)
        ensures
            r == distinct_count(ReportKind::Hex, string_views(lines@)),
    {
        Statistics::count_unique(ReportKind::Hex, lines)
    }

    /// The number of distinct hosts, lowercased, of all addresses of CSV lines.
    pub fn count_unique_csv_urls(lines: &Vec<String>) -> (r: usize)
        ensures
            r == distinct_count(ReportKind::Haus, string_views(lines@)),
    {
        Statistics::count_unique(ReportKind::Haus, lines)
    }

    /// The statistics of report `kind` from what was read of its file.
    pub fn analyze_report(kind: ReportKind, file: ReportFile) -> (r: ReportStats)
        ensures
            spec_stats(kind, file, r),
    {
        let name = kind.display_name().to_string();
        if !file.exists {
            return ReportStats {
                file_name: name,
                exists: false,
                line_count: 0,
                unique_count: 0,
                file_size: 0,
                last_modified: None,
            };
        }
        let unique_count = match kind {
            ReportKind::Top100 => file.line_count,
            _ => match &file.lines {
                Some(ls) => Statistics::count_unique(kind, ls),
                None => 0,
            },
        };
        ReportStats {
            file_name: name,
            exists: true,
            line_count: file.line_count,
            unique_count,
            file_size: file.file_size,
            last_modified: file.last_modified,
        }
    }

    /// The statistics of each report, in the order given.
    pub fn analyze_all_reports(files: Vec<(ReportKind, ReportFile)>) -> (r: Vec<ReportStats>)
        ensures
            r@.len() == files@.len(),
            forall|i: int| 0 <= i < files@.len() ==> spec_stats(files@[i].0, files@[i].1, #[trigger] r@[i]),
    {
        let ghost fs = files@;
        let mut out: Vec<ReportStats> = Vec::new();
        let mut rest = files;
        while rest.len() > 0
            invariant
                out@.len() + rest@.len() == fs.len(),
                rest@ == fs.skip(out@.len() as int),
                forall|i: int| 0 <= i < out@.len() ==> spec_stats(fs[i].0, fs[i].1, #[trigger] out@[i]),
            decreases rest@.len(),
        {
            let ghost k = out@.len() as int;
            let (kind, file) = rest.remove(0);
            assert(rest@ =~= fs.skip(k + 1));
            let s = Statistics::analyze_report(kind, file);
            out.push(s);
        }
        out
    }

    /// Totals over the reports; `None` where a total does not fit its type.
    pub fn summarize(stats: &Vec<ReportStats>) -> (r: Option<StatsSummary>)
        ensures
            match r {
                Some(s) => {
                    &&& s.total_reports == stats@.len()
                    &&& s.existing_reports == existing_count(stats@)
                    &&& s.total_lines == sum_lines(stats@)
                    &&& s.total_unique == sum_unique(stats@)
                    &&& s.total_size == sum_size(stats@)
                },
                None => sum_lines(stats@) > usize::MAX || sum_unique(stats@) > usize::MAX
                    || sum_size(stats@) > u64::MAX,
            },
    {
        let mut existing: usize = 0;
        let mut lines: usize = 0;
        let mut unique: usize = 0;
        let mut size: u64 = 0;
        let mut i: usize = 0;
        while i < stats.len()
            invariant
                i <= stats@.len(),
                existing == existing_count(stats@.take(i as int)),
                lines == sum_lines(stats@.take(i as int)),
                unique == sum_unique(stats@.take(i as int)),
                size == sum_size(stats@.take(i as int)),
                existing <= i,
            decreases stats@.len() - i,
        {
            proof {
                assert(stats@.take(i + 1).drop_last() =~= stats@.take(i as int));
                lemma_sums_grow(stats@, i as int);
            }
            let s = &stats[i];
            if s.exists {
                existing = existing + 1;
            }
            match lines.checked_add(s.line_count) {
                Some(v) => lines = v,
                None => return None,
            }
            match unique.checked_add(s.unique_count) {
                Some(v) => unique = v,
                None => return None,
            }
            match size.checked_add(s.file_size) {
                Some(v) => size = v,
                None => return None,
            }
            i += 1;
        }
        assert(stats@.take(stats@.len() as int) =~= stats@);
        Some(
            StatsSummary {
                total_reports: stats.len(),
                existing_reports: existing,
                total_lines: lines,
                total_unique: unique,
                total_size: size,
            },
        )
    }
}

/// How many of the reports exist.
pub open spec fn existing_count(s: Seq<ReportStats>) -> nat
    decreases s.len(),
{
    if s.len() == 0 {
        0
    } else {
        existing_count(s.drop_last()) + if s.last().exists {
            1nat
        } else {
            0nat
        }
    }
}

/// The sum of the line counts.
pub open spec fn sum_lines(s: Seq<ReportStats>) -> nat
    decreases s.len(),
{
    if s.len() == 0 {
        0
    } else {
        sum_lines(s.drop_last()) + s.last().line_count as nat
    }
}

/// The sum of the distinct counts.
pub open spec fn sum_unique(s: Seq<ReportStats>) -> nat
    decreases s.len(),
{
    if s.len() == 0 {
        0
    } else {
        sum_unique(s.drop_last()) + s.last().unique_count as nat
    }
}

/// The sum of the file sizes.
pub open spec fn sum_size(s: Seq<ReportStats>) -> nat
    decreases s.len(),
{
    if s.len() == 0 {
        0
    } else {
        sum_size(s.drop_last()) + s.last().file_size as nat
    }
}

/// The sums over a prefix never exceed the sums over the whole.
proof fn lemma_sums_grow(s: Seq<ReportStats>, i: int)
    requires
        0 <= i < s.len(),
    ensures
        sum_lines(s.take(i + 1)) <= sum_lines(s),
        sum_unique(s.take(i + 1)) <= sum_unique(s),
        sum_size(s.take(i + 1)) <= sum_size(s),
    decreases s.len(),
{
    if i + 1 < s.len() {
        lemma_sums_grow(s.drop_last(), i);
        assert(s.drop_last().take(i + 1) =~= s.take(i + 1));
    } else {
        assert(s.take(i + 1) =~= s);
    }
}

} // verus!
