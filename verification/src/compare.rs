//! Side-by-side comparison of two reports.

use vstd::prelude::*;
use vstd::string::*;
use crate::config::{Paths, ReportKind};
use crate::history::{
    common_count, lemma_common_count_set, lemma_minus_distinct, lemma_minus_partition, minus,
};
use crate::sets::{dedup, IndicatorSet};
use crate::text::{
    count_char, count_occurrences, lowercase, split_char, split_on, starts_with, str_eq,
    string_views, to_lowercase, trim, trim_spec, views,
};

verus! {

/// The result of comparing two reports.
#[derive(Debug)]
pub struct ComparisonResult {
    pub report1_name: String,
    pub report2_name: String,
    pub report1_total: usize,
    pub report2_total: usize,
    pub common: usize,
    pub only_in_report1: Vec<String>,
    pub only_in_report2: Vec<String>,
}

/// Why two reports could not be compared.
#[derive(Debug)]
pub enum CompareError {
    UnknownReport { name: String },
}

pub struct Compare;

/// The report a (lowercased) name designates for COMPARE.
pub open spec fn compare_alias(name: Seq<char>) -> Option<ReportKind> {
    if name == "payload"@ || name == "payloadreport"@ {
        Some(ReportKind::Payload)
    } else if name == "amp"@ || name == "ampreport"@ {
        Some(ReportKind::Amp)
    } else if name == "c2"@ || name == "c2report"@ {
        Some(ReportKind::C2)
    } else if name == "top100"@ || name == "top"@ {
        Some(ReportKind::Top100)
    } else if name == "hex"@ || name == "hexreport"@ {
        Some(ReportKind::Hex)
    } else if name == "haus"@ || name == "hausmaldown"@ {
        Some(ReportKind::Haus)
    } else if name == "phish"@ || name == "phishtank"@ {
        Some(ReportKind::Phish)
    } else {
        None
    }
}

/// Whether a field of a CSV line looks like an address: a URL, or dotted digits with at least
/// three dots.
pub open spec fn is_address_field(f: Seq<char>) -> bool {
    let s = trim_spec(f);
    ||| "http://"@.is_prefix_of(s)
    ||| "https://"@.is_prefix_of(s)
    ||| count_char(s, '.') >= 3 && forall|i: int|
        0 <= i < s.len() ==> ('0' <= #[trigger] s[i] && s[i] <= '9') || s[i] == '.'
}

/// The position of the first field that looks like an address.
pub open spec fn first_address_field(parts: Seq<Seq<char>>) -> Option<int>
    decreases parts.len(),
{
    if parts.len() == 0 {
        None
    } else if is_address_field(parts[0]) {
        Some(0)
    } else {
        match first_address_field(parts.drop_first()) {
            Some(i) => Some(i + 1),
            None => None,
        }
    }
}

/// The indicator a report line contributes to a comparison, if any. Blank lines and comments
/// contribute none; a text report contributes the trimmed line; a CSV line contributes its
/// first address-like field, or else its first field when that is not blank.
pub open spec fn line_indicator(line: Seq<char>, is_csv: bool) -> Option<Seq<char>> {
    let t = trim_spec(line);
    if t.len() == 0 || t[0] == '#' {
        None
    } else if !is_csv {
        Some(t)
    } else {
        let parts = split_char(t, ',');
        match first_address_field(parts) {
            Some(i) => Some(trim_spec(parts[i])),
            None => if trim_spec(parts[0]).len() > 0 {
                Some(trim_spec(parts[0]))
            } else {
                None
            },
        }
    }
}

/// The indicators the lines contribute, in order, with repeats.
pub open spec fn lines_indicators(lines: Seq<Seq<char>>, is_csv: bool) -> Seq<Seq<char>>
    decreases lines.len(),
{
    if lines.len() == 0 {
        seq![]
    } else {
        let prev = lines_indicators(lines.drop_last(), is_csv);
        match line_indicator(lines.last(), is_csv) {
            Some(x) => prev.push(x),
            None => prev,
        }
    }
}

/// The distinct indicators of a report, in order of first occurrence.
pub open spec fn report_indicators(lines: Seq<Seq<char>>, is_csv: bool) -> Seq<Seq<char>> {
    dedup(lines_indicators(lines, is_csv))
}

proof fn lemma_first_address_field(parts: Seq<Seq<char>>, k: int)
    requires
        0 <= k <= parts.len(),
        forall|j: int| 0 <= j < k ==> !is_address_field(#[trigger] parts[j]),
    ensures
        k < parts.len() && is_address_field(parts[k]) ==> first_address_field(parts) == Some(k),
        k == parts.len() ==> first_address_field(parts) is None,
    decreases k,
{
    if parts.len() > 0 && k > 0 {
        let t = parts.drop_first();
        assert forall|j: int| 0 <= j < k - 1 implies !is_address_field(#[trigger] t[j]) by {
            assert(t[j] == parts[j + 1]);
        }
        if k < parts.len() {
            assert(t[k - 1] == parts[k]);
        }
        lemma_first_address_field(t, k - 1);
    }
}

fn address_field(f: &str) -> (r: bool)
    ensures
        r == is_address_field(f@),
{
    let s = trim(f);
    if starts_with(s, "http://") || starts_with(s, "https://") {
        return true;
    }
    if count_occurrences(s, '.') < 3 {
        return false;
    }
    let n = s.unicode_len();
    let mut i: usize = 0;
    while i < n
        invariant
            i <= n,
            n == s@.len(),
            s@ == trim_spec(f@),
            !"http://"@.is_prefix_of(s@),
            !"https://"@.is_prefix_of(s@),
            count_char(s@, '.') >= 3,
            forall|j: int| 0 <= j < i ==> ('0' <= #[trigger] s@[j] && s@[j] <= '9') || s@[j] == '.',
        decreases n - i,
    {
        let c = s.get_char(i);
        if !(('0' <= c && c <= '9') || c == '.') {
            assert(!(('0' <= s@[i as int] && s@[i as int] <= '9') || s@[i as int] == '.'));
            return false;
        }
        i += 1;
    }
    true
}

/// The indicator a report line contributes to a comparison, if any.
pub fn indicator_from_line(line: &str, is_csv: bool) -> (r: Option<String>)
    ensures
        opt_string_view(r) == line_indicator(line@, is_csv),
{
    let t = trim(line);
    if t.unicode_len() == 0 || t.get_char(0) == '#' {
        return None;
    }
    if !is_csv {
        return Some(t.to_owned());
    }
    let parts = split_on(t, ',');
    proof {
        crate::text::lemma_split_char_nonempty(t@, ',');
    }
    let mut k: usize = 0;
    while k < parts.len()
        invariant
            k <= parts@.len(),
            views(parts@) == split_char(t@, ','),
            t@ == trim_spec(line@),
            t@.len() > 0 && t@[0] != '#',
            is_csv,
            forall|j: int| 0 <= j < k ==> !is_address_field(#[trigger] views(parts@)[j]),
        decreases parts@.len() - k,
    {
        assert(views(parts@)[k as int] == parts@[k as int]@);
        if address_field(parts[k]) {
            proof {
                lemma_first_address_field(views(parts@), k as int);
            }
            return Some(trim(parts[k]).to_owned());
        }
        k += 1;
    }
    proof {
        lemma_first_address_field(views(parts@), k as int);
    }
    assert(views(parts@)[0] == parts@[0]@);
    let first = trim(parts[0]);
    if first.unicode_len() > 0 {
        Some(first.to_owned())
    } else {
        None
    }
}

/// The view of an optional string.
pub open spec fn opt_string_view(o: Option<String>) -> Option<Seq<char>> {
    match o {
        Some(s) => Some(s@),
        None => None,
    }
}

fn report_alias(name: &str) -> (r: Option<ReportKind>)
    ensures
        r == compare_alias(lowercase(name@)),
{
    let lower = to_lowercase(name);
    let n = lower.as_str();
    if str_eq(n, "payload") || str_eq(n, "payloadreport") {
        Some(ReportKind::Payload)
    } else if str_eq(n, "amp") || str_eq(n, "ampreport") {
        Some(ReportKind::Amp)
    } else if str_eq(n, "c2") || str_eq(n, "c2report") {
        Some(ReportKind::C2)
    } else if str_eq(n, "top100") || str_eq(n, "top") {
        Some(ReportKind::Top100)
    } else if str_eq(n, "hex") || str_eq(n, "hexreport") {
        Some(ReportKind::Hex)
    } else if str_eq(n, "haus") || str_eq(n, "hausmaldown") {
        Some(ReportKind::Haus)
    } else if str_eq(n, "phish") || str_eq(n, "phishtank") {
        Some(ReportKind::Phish)
    } else {
        None
    }
}

impl Compare {
    /// The location of the report a name designates (case-insensitively), if any.
    pub fn get_report_path<'a>(paths: &'a Paths, report_name: &str) -> (r: Option<&'a String>)
        ensures
            match compare_alias(lowercase(report_name@)) {
                Some(k) => r == Some(&paths.spec_report_path(k)),
                None => r is None,
            },
    {
        match report_alias(report_name) {
            Some(k) => Some(paths.report_path(k)),
            None => None,
        }
    }

    /// The distinct indicators of a report's lines, in order of first occurrence.
    pub fn read_indicators(lines: &Vec<String>, is_csv: bool) -> (r: IndicatorSet)
        ensures
            r.wf(),
            r@ == report_indicators(string_views(lines@), is_csv),
    {
        let ghost ls = string_views(lines@);
        let mut all: Vec<String> = Vec::new();
        let mut k: usize = 0;
        while k < lines.len()
            invariant
                k <= lines@.len(),
                ls == string_views(lines@),
                string_views(all@) == lines_indicators(ls.take(k as int), is_csv),
            decreases lines@.len() - k,
        {
            proof {
                assert(ls.take(k + 1).drop_last() =~= ls.take(k as int));
                assert(ls.take(k + 1).last() == lines@[k as int]@);
            }
            match indicator_from_line(lines[k].as_str(), is_csv) {
                Some(x) => {
                    let ghost before = all@;
                    all.push(x);
                    assert(string_views(all@) =~= string_views(before).push(x@));
                },
                None => {},
            }
            k += 1;
        }
        assert(ls.take(lines@.len() as int) =~= ls);
        IndicatorSet::from_strings(&all)
    }

    /// Compares the lines of two reports named by the user. The named reports decide whether
    /// the lines are read as CSV; a name that designates no report is an error.
    pub fn compare_reports(
        report1_name: &str,
        report2_name: &str,
        lines1: &Vec<String>,
        lines2: &Vec<String>,
    ) -> (r: Result<ComparisonResult, CompareError>)
        ensures
            compare_alias(lowercase(report1_name@)) is None ==> (r matches Err(
                CompareError::UnknownReport { name },
            ) && name@ == report1_name@),
            compare_alias(lowercase(report1_name@)) is Some && compare_alias(
                lowercase(report2_name@),
            ) is None ==> (r matches Err(CompareError::UnknownReport { name }) && name@
                == report2_name@),
            compare_alias(lowercase(report1_name@)) matches Some(k1) ==> compare_alias(
                lowercase(report2_name@),
            ) matches Some(k2) ==> (r matches Ok(c) && {
                let i1 = report_indicators(string_views(lines1@), k1.spec_is_csv());
                let i2 = report_indicators(string_views(lines2@), k2.spec_is_csv());
                &&& c.report1_name@ == report1_name@
                &&& c.report2_name@ == report2_name@
                &&& c.report1_total == i1.len()
                &&& c.report2_total == i2.len()
                &&& c.common == common_count(i1, i2)
                &&& string_views(c.only_in_report1@) == minus(i1, i2)
                &&& string_views(c.only_in_report2@) == minus(i2, i1)
                &&& c.common + c.only_in_report1@.len() == c.report1_total
                &&& c.common + c.only_in_report2@.len() == c.report2_total
            }),
    {
        let k1 = match report_alias(report1_name) {
            Some(k) => k,
            None => {
                return Err(CompareError::UnknownReport { name: report1_name.to_owned() });
            },
        };
        let k2 = match report_alias(report2_name) {
            Some(k) => k,
            None => {
                return Err(CompareError::UnknownReport { name: report2_name.to_owned() });
            },
        };
        let set1 = Compare::read_indicators(lines1, k1.is_csv());
        let set2 = Compare::read_indicators(lines2, k2.is_csv());
        let ghost i1 = set1@;
        let ghost i2 = set2@;
        proof {
            set1.lemma_distinct();
            set2.lemma_distinct();
        }
        let items1 = set1.items();
        let items2 = set2.items();
        let mut common: usize = 0;
        let mut only1: Vec<String> = Vec::new();
        let mut k: usize = 0;
        while k < items1.len()
            invariant
                k <= i1.len(),
                string_views(items1@) == i1,
                set2.wf(),
                i2 == set2@,
                string_views(only1@) == minus(i1.take(k as int), i2),
                common == common_count(i1.take(k as int), i2),
                common <= k,
            decreases i1.len() - k,
        {
            proof {
                assert(i1.take(k + 1).drop_last() =~= i1.take(k as int));
                assert(i1.take(k + 1).last() == items1@[k as int]@);
            }
            let x = &items1[k];
            if set2.contains(x.as_str()) {
                common += 1;
            } else {
                let ghost before = only1@;
                only1.push(x.clone());
                assert(string_views(only1@) =~= string_views(before).push(x@));
            }
            k += 1;
        }
        assert(i1.take(i1.len() as int) =~= i1);
        let mut only2: Vec<String> = Vec::new();
        let mut k: usize = 0;
        while k < items2.len()
            invariant
                k <= i2.len(),
                string_views(items2@) == i2,
                set1.wf(),
                i1 == set1@,
                string_views(only2@) == minus(i2.take(k as int), i1),
            decreases i2.len() - k,
        {
            proof {
                assert(i2.take(k + 1).drop_last() =~= i2.take(k as int));
                assert(i2.take(k + 1).last() == items2@[k as int]@);
            }
            let x = &items2[k];
            if !set1.contains(x.as_str()) {
                let ghost before = only2@;
                only2.push(x.clone());
                assert(string_views(only2@) =~= string_views(before).push(x@));
            }
            k += 1;
        }
        assert(i2.take(i2.len() as int) =~= i2);
        proof {
            lemma_minus_partition(i1, i2);
            lemma_minus_partition(i2, i1);
            lemma_common_count_set(i1, i2);
            lemma_common_count_set(i2, i1);
            assert(i1.to_set().intersect(i2.to_set()) =~= i2.to_set().intersect(i1.to_set()));
        }
        Ok(
            ComparisonResult {
                report1_name: report1_name.to_owned(),
                report2_name: report2_name.to_owned(),
                report1_total: set1.len(),
                report2_total: set2.len(),
                common,
                only_in_report1: only1,
                only_in_report2: only2,
            },
        )
    }
}


/// Comparing two reports is set algebra on their distinct indicators, whichever comes first:
/// each total is the size of that report's set, the common count is the size of the two sets'
/// intersection (the same with the reports swapped), and each "only in" list holds, once each,
/// exactly the indicators of its report that the other lacks.
pub proof fn lemma_comparison_is_set_algebra(
    lines1: Seq<Seq<char>>,
    csv1: bool,
    lines2: Seq<Seq<char>>,
    csv2: bool,
)
    ensures
        report_indicators(lines1, csv1).len() == report_indicators(lines1, csv1).to_set().len(),
        report_indicators(lines2, csv2).len() == report_indicators(lines2, csv2).to_set().len(),
        common_count(report_indicators(lines1, csv1), report_indicators(lines2, csv2))
            == report_indicators(lines1, csv1).to_set().intersect(
            report_indicators(lines2, csv2).to_set(),
        ).len(),
        common_count(report_indicators(lines1, csv1), report_indicators(lines2, csv2))
            == common_count(report_indicators(lines2, csv2), report_indicators(lines1, csv1)),
        minus(report_indicators(lines1, csv1), report_indicators(lines2, csv2)).no_duplicates(),
        minus(report_indicators(lines1, csv1), report_indicators(lines2, csv2)).to_set()
            == report_indicators(lines1, csv1).to_set().difference(
            report_indicators(lines2, csv2).to_set(),
        ),
        minus(report_indicators(lines2, csv2), report_indicators(lines1, csv1)).no_duplicates(),
        minus(report_indicators(lines2, csv2), report_indicators(lines1, csv1)).to_set()
            == report_indicators(lines2, csv2).to_set().difference(
            report_indicators(lines1, csv1).to_set(),
        ),
{
    let i1 = report_indicators(lines1, csv1);
    let i2 = report_indicators(lines2, csv2);
    crate::sets::lemma_dedup(lines_indicators(lines1, csv1));
    crate::sets::lemma_dedup(lines_indicators(lines2, csv2));
    i1.unique_seq_to_set();
    i2.unique_seq_to_set();
    lemma_common_count_set(i1, i2);
    lemma_common_count_set(i2, i1);
    assert(i1.to_set().intersect(i2.to_set()) =~= i2.to_set().intersect(i1.to_set()));
    lemma_minus_distinct(i1, i2);
    lemma_minus_distinct(i2, i1);
    assert(minus(i1, i2).to_set() =~= i1.to_set().difference(i2.to_set()));
    assert(minus(i2, i1).to_set() =~= i2.to_set().difference(i1.to_set()));
}


/// A CSV field that holds a URL, its trimmed text starting with `http://` or `https://`, is an
/// address field.
pub proof fn lemma_url_fields_are_addresses(f: Seq<char>)
    ensures
        "http://"@.is_prefix_of(trim_spec(f)) ==> is_address_field(f),
        "https://"@.is_prefix_of(trim_spec(f)) ==> is_address_field(f),
{
}

/// A CSV line that is neither blank nor a comment contributes its first address field, trimmed:
/// the field at `k` when it is an address field and no field before it is.
pub proof fn lemma_csv_line_takes_first_address(line: Seq<char>, k: int)
    requires
        trim_spec(line).len() > 0,
        trim_spec(line)[0] != '#',
        0 <= k < split_char(trim_spec(line), ',').len(),
        is_address_field(split_char(trim_spec(line), ',')[k]),
        forall|j: int|
            0 <= j < k ==> !is_address_field(#[trigger] split_char(trim_spec(line), ',')[j]),
    ensures
        line_indicator(line, true) == Some(trim_spec(split_char(trim_spec(line), ',')[k])),
{
    lemma_first_address_field(split_char(trim_spec(line), ','), k);
}

/// A blank or comment line (its trimmed text empty or starting with `#`) contributes nothing to a
/// comparison, and a text report's other lines contribute themselves, trimmed.
pub proof fn lemma_comparison_lines(lines: Seq<Seq<char>>, line: Seq<char>, is_csv: bool)
    ensures
        trim_spec(line).len() == 0 || trim_spec(line)[0] == '#' ==> lines_indicators(
            lines.push(line),
            is_csv,
        ) == lines_indicators(lines, is_csv),
        !(trim_spec(line).len() == 0 || trim_spec(line)[0] == '#') ==> lines_indicators(
            lines.push(line),
            false,
        ) == lines_indicators(lines, false).push(trim_spec(line)),
{
    assert(lines.push(line).drop_last() =~= lines);
}


/// A name that designates a report both for COMPARE and for EXPORT designates the same report.
pub proof fn lemma_compare_names_agree_with_export(name: Seq<char>)
    ensures
        compare_alias(name) is Some && crate::export::export_alias(name) is Some ==> compare_alias(
            name,
        ) == crate::export::export_alias(name),
{
    reveal_strlit("amp");
    reveal_strlit("ampreport");
    reveal_strlit("c2");
    reveal_strlit("c2-servers");
    reveal_strlit("c2report");
    reveal_strlit("c2servers");
    reveal_strlit("hashes");
    reveal_strlit("haus");
    reveal_strlit("hausmaldown");
    reveal_strlit("hex");
    reveal_strlit("hexreport");
    reveal_strlit("payload");
    reveal_strlit("payload-domains");
    reveal_strlit("payloadreport");
    reveal_strlit("payloads");
    reveal_strlit("phish");
    reveal_strlit("phish-tank");
    reveal_strlit("phishtank");
    reveal_strlit("top");
    reveal_strlit("top-100");
    reveal_strlit("top100");
    reveal_strlit("url-haus");
    reveal_strlit("urlhaus");
    assert("amp"@.len() == 3);
    assert("ampreport"@.len() == 9);
    assert("c2"@.len() == 2);
    assert("c2-servers"@.len() == 10);
    assert("c2report"@.len() == 8);
    assert("c2servers"@.len() == 9);
    assert("hashes"@.len() == 6);
    assert("haus"@.len() == 4);
    assert("hausmaldown"@.len() == 11);
    assert("hex"@.len() == 3);
    assert("hexreport"@.len() == 9);
    assert("payload"@.len() == 7);
    assert("payload-domains"@.len() == 15);
    assert("payloadreport"@.len() == 13);
    assert("payloads"@.len() == 8);
    assert("phish"@.len() == 5);
    assert("phish-tank"@.len() == 10);
    assert("phishtank"@.len() == 9);
    assert("top"@.len() == 3);
    assert("top-100"@.len() == 7);
    assert("top100"@.len() == 6);
    assert("url-haus"@.len() == 8);
    assert("urlhaus"@.len() == 7);
    assert("payload"@ != "urlhaus"@) by {
        assert("payload"@[0] != "urlhaus"@[0]);
    }
    assert("payload"@ != "top-100"@) by {
        assert("payload"@[0] != "top-100"@[0]);
    }
    assert("amp"@ != "hex"@) by {
        assert("amp"@[0] != "hex"@[0]);
    }
    assert("amp"@ != "top"@) by {
        assert("amp"@[0] != "top"@[0]);
    }
    assert("ampreport"@ != "c2servers"@) by {
        assert("ampreport"@[0] != "c2servers"@[0]);
    }
    assert("ampreport"@ != "phishtank"@) by {
        assert("ampreport"@[0] != "phishtank"@[0]);
    }
    assert("c2report"@ != "payloads"@) by {
        assert("c2report"@[0] != "payloads"@[0]);
    }
    assert("c2report"@ != "url-haus"@) by {
        assert("c2report"@[0] != "url-haus"@[0]);
    }
    assert("top100"@ != "hashes"@) by {
        assert("top100"@[0] != "hashes"@[0]);
    }
    assert("top"@ != "amp"@) by {
        assert("top"@[0] != "amp"@[0]);
    }
    assert("top"@ != "hex"@) by {
        assert("top"@[0] != "hex"@[0]);
    }
    assert("hex"@ != "amp"@) by {
        assert("hex"@[0] != "amp"@[0]);
    }
    assert("hex"@ != "top"@) by {
        assert("hex"@[0] != "top"@[0]);
    }
    assert("hexreport"@ != "c2servers"@) by {
        assert("hexreport"@[0] != "c2servers"@[0]);
    }
    assert("hexreport"@ != "phishtank"@) by {
        assert("hexreport"@[0] != "phishtank"@[0]);
    }
    assert("phishtank"@ != "c2servers"@) by {
        assert("phishtank"@[0] != "c2servers"@[0]);
    }
    assert(crate::export::export_alias("payload"@) is None || crate::export::export_alias("payload"@) == compare_alias("payload"@));
    assert(crate::export::export_alias("payloadreport"@) is None || crate::export::export_alias("payloadreport"@) == compare_alias("payloadreport"@));
    assert(crate::export::export_alias("amp"@) is None || crate::export::export_alias("amp"@) == compare_alias("amp"@));
    assert(crate::export::export_alias("ampreport"@) is None || crate::export::export_alias("ampreport"@) == compare_alias("ampreport"@));
    assert(crate::export::export_alias("c2"@) is None || crate::export::export_alias("c2"@) == compare_alias("c2"@));
    assert(crate::export::export_alias("c2report"@) is None || crate::export::export_alias("c2report"@) == compare_alias("c2report"@));
    assert(crate::export::export_alias("top100"@) is None || crate::export::export_alias("top100"@) == compare_alias("top100"@));
    assert(crate::export::export_alias("top"@) is None || crate::export::export_alias("top"@) == compare_alias("top"@));
    assert(crate::export::export_alias("hex"@) is None || crate::export::export_alias("hex"@) == compare_alias("hex"@));
    assert(crate::export::export_alias("hexreport"@) is None || crate::export::export_alias("hexreport"@) == compare_alias("hexreport"@));
    assert(crate::export::export_alias("haus"@) is None || crate::export::export_alias("haus"@) == compare_alias("haus"@));
    assert(crate::export::export_alias("hausmaldown"@) is None || crate::export::export_alias("hausmaldown"@) == compare_alias("hausmaldown"@));
    assert(crate::export::export_alias("phish"@) is None || crate::export::export_alias("phish"@) == compare_alias("phish"@));
    assert(crate::export::export_alias("phishtank"@) is None || crate::export::export_alias("phishtank"@) == compare_alias("phishtank"@));
}

} // verus!
