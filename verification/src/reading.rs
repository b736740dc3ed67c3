//! Picking the indicators out of the lines of a report.

use vstd::prelude::*;
use vstd::string::*;
use crate::patterns::{captures, group_texts, CSV_HOST_PATTERN, IPV4_PATTERN};
use crate::text::{
    contains_str, lemma_split_char_nonempty, lower_all, lowered, occurs_in, split_char, split_on,
    string_views, trim, trim_spec, views,
};

verus! {

/// A trimmed line that holds nothing: blank, or a `#` comment.
pub open spec fn is_skipped(t: Seq<char>) -> bool {
    t.len() == 0 || t[0] == '#'
}

/// The indicators a trimmed CSV line names: the hosts of its addresses, lowercased, then its
/// dotted quads.
pub open spec fn csv_found(t: Seq<char>) -> Seq<Seq<char>> {
    lowered(group_texts(CSV_HOST_PATTERN@, t)) + group_texts(IPV4_PATTERN@, t)
}

/// The first comma-separated field of a line, trimmed.
pub open spec fn first_field(t: Seq<char>) -> Seq<char> {
    trim_spec(split_char(t, ',')[0])
}

/// Whether one of `items` occurs in `t`.
pub open spec fn any_occurs(items: Seq<Seq<char>>, t: Seq<char>) -> bool {
    exists|j: int| 0 <= j < items.len() && occurs_in(#[trigger] items[j], t)
}

/// The indicators a validation reads from the lines of a report, in order. A CSV line
/// contributes what `csv_found` finds in it; where none of the indicators read so far (from
/// this line or an earlier one) occurs in the line, its non-empty first field is added too.
pub open spec fn listed_indicators(lines: Seq<Seq<char>>, is_csv: bool) -> Seq<Seq<char>>
    decreases lines.len(),
{
    if lines.len() == 0 {
        seq![]
    } else {
        let p = listed_indicators(lines.drop_last(), is_csv);
        let t = trim_spec(lines.last());
        if is_skipped(t) {
            p
        } else if !is_csv {
            p.push(t)
        } else {
            let q = p + csv_found(t);
            if any_occurs(q, t) || first_field(t).len() == 0 {
                q
            } else {
                q.push(first_field(t))
            }
        }
    }
}

/// The indicators the scan history reads from the lines of a report, in order and with
/// repetitions. A CSV line contributes what `csv_found` finds in it; its non-empty first field is
/// added only while nothing at all has been read from the report.
pub open spec fn gathered_indicators(lines: Seq<Seq<char>>, is_csv: bool) -> Seq<Seq<char>>
    decreases lines.len(),
{
    if lines.len() == 0 {
        seq![]
    } else {
        let p = gathered_indicators(lines.drop_last(), is_csv);
        let t = trim_spec(lines.last());
        if is_skipped(t) {
            p
        } else if !is_csv {
            p.push(t)
        } else {
            let q = p + csv_found(t);
            if q.len() > 0 || first_field(t).len() == 0 {
                q
            } else {
                q.push(first_field(t))
            }
        }
    }
}

/// The indicators a trimmed CSV line names.
pub fn csv_line_indicators(t: &str) -> (r: Vec<String>)
    ensures
        string_views(r@) == csv_found(t@),
{
    let hosts = captures(CSV_HOST_PATTERN, t);
    let mut out = lower_all(&hosts);
    let ips = captures(IPV4_PATTERN, t);
    let mut i: usize = 0;
    let ghost start = string_views(out@);
    while i < ips.len()
        invariant
            i <= ips@.len(),
            start == lowered(group_texts(CSV_HOST_PATTERN@, t@)),
            string_views(ips@) == group_texts(IPV4_PATTERN@, t@),
            string_views(out@) == start + string_views(ips@).take(i as int),
        decreases ips@.len() - i,
    {
        let ghost before = out@;
        let ip = ips[i].clone();
        out.push(ip);
        proof {
            assert(string_views(out@) =~= string_views(before).push(ip@));
            assert(string_views(ips@).take(i + 1) =~= string_views(ips@).take(i as int).push(
                ips@[i as int]@,
            ));
        }
        i += 1;
    }
    assert(string_views(ips@).take(ips@.len() as int) =~= string_views(ips@));
    out
}

/// The first comma-separated field of `t`, trimmed.
pub fn first_csv_field(t: &str) -> (r: &str)
    ensures
        r@ == first_field(t@),
{
    let parts = split_on(t, ',');
    proof {
        lemma_split_char_nonempty(t@, ',');
        assert(views(parts@)[0] == parts@[0]@);
    }
    trim(parts[0])
}

/// Whether one of `items` occurs in `t`.
pub fn any_contained(items: &Vec<String>, t: &str) -> (r: bool)
    ensures
        r == any_occurs(string_views(items@), t@),
{
    let mut i: usize = 0;
    while i < items.len()
        invariant
            i <= items@.len(),
            forall|j: int| 0 <= j < i ==> !occurs_in(#[trigger] string_views(items@)[j], t@),
        decreases items@.len() - i,
    {
        if contains_str(t, items[i].as_str()) {
            assert(occurs_in(string_views(items@)[i as int], t@));
            return true;
        }
        i += 1;
    }
    false
}

/// Appends `items` to `out`.
pub fn append_strings(out: &mut Vec<String>, items: Vec<String>)
    ensures
        string_views(final(out)@) == string_views(old(out)@) + string_views(items@),
{
    let ghost start = string_views(out@);
    let mut i: usize = 0;
    while i < items.len()
        invariant
            i <= items@.len(),
            string_views(out@) == start + string_views(items@).take(i as int),
        decreases items@.len() - i,
    {
        let ghost before = out@;
        let item = items[i].clone();
        out.push(item);
        proof {
            assert(string_views(out@) =~= string_views(before).push(item@));
            assert(string_views(items@).take(i + 1) =~= string_views(items@).take(i as int).push(
                items@[i as int]@,
            ));
        }
        i += 1;
    }
    assert(string_views(items@).take(items@.len() as int) =~= string_views(items@));
}

/// The indicators a validation reads from the lines of a report.
pub fn list_indicators(lines: &Vec<String>, is_csv: bool) -> (r: Vec<String>)
    ensures
        string_views(r@) == listed_indicators(string_views(lines@), is_csv),
{
    let ghost ls = string_views(lines@);
    let mut out: Vec<String> = Vec::new();
    let mut i: usize = 0;
    assert(ls.take(0) =~= Seq::<Seq<char>>::empty());
    while i < lines.len()
        invariant
            i <= lines@.len(),
            ls == string_views(lines@),
            string_views(out@) == listed_indicators(ls.take(i as int), is_csv),
        decreases lines@.len() - i,
    {
        proof {
            assert(ls.take(i + 1).drop_last() =~= ls.take(i as int));
            assert(ls.take(i + 1).last() == lines@[i as int]@);
        }
        let t = trim(lines[i].as_str());
        if t.unicode_len() == 0 || t.get_char(0) == '#' {
        } else if !is_csv {
            let ghost before = out@;
            out.push(t.to_string());
            assert(string_views(out@) =~= string_views(before).push(t@));
        } else {
            let found = csv_line_indicators(t);
            append_strings(&mut out, found);
            if !any_contained(&out, t) {
                let first = first_csv_field(t);
                if first.unicode_len() > 0 {
                    let ghost before = out@;
                    out.push(first.to_string());
                    assert(string_views(out@) =~= string_views(before).push(first@));
                }
            }
        }
        i += 1;
    }
    assert(ls.take(lines@.len() as int) =~= ls);
    out
}

/// The indicators the scan history reads from the lines of a report, with repetitions.
pub fn gather_indicators(lines: &Vec<String>, is_csv: bool) -> (r: Vec<String>)
    ensures
        string_views(r@) == gathered_indicators(string_views(lines@), is_csv),
{
    let ghost ls = string_views(lines@);
    let mut out: Vec<String> = Vec::new();
    let mut i: usize = 0;
    assert(ls.take(0) =~= Seq::<Seq<char>>::empty());
    while i < lines.len()
        invariant
            i <= lines@.len(),
            ls == string_views(lines@),
            string_views(out@) == gathered_indicators(ls.take(i as int), is_csv),
        decreases lines@.len() - i,
    {
        proof {
            assert(ls.take(i + 1).drop_last() =~= ls.take(i as int));
            assert(ls.take(i + 1).last() == lines@[i as int]@);
        }
        let t = trim(lines[i].as_str());
        if t.unicode_len() == 0 || t.get_char(0) == '#' {
        } else if !is_csv {
            let ghost before = out@;
            out.push(t.to_string());
            assert(string_views(out@) =~= string_views(before).push(t@));
        } else {
            let found = csv_line_indicators(t);
            append_strings(&mut out, found);
            if out.len() == 0 {
                let first = first_csv_field(t);
                if first.unicode_len() > 0 {
                    let ghost before = out@;
                    out.push(first.to_string());
                    assert(string_views(out@) =~= string_views(before).push(first@));
                }
            }
        }
        i += 1;
    }
    assert(ls.take(lines@.len() as int) =~= ls);
    out
}


/// A blank or comment line (its trimmed text empty or starting with `#`) adds nothing to the
/// indicators a scan or a validation reads from a report, CSV or not.
pub proof fn lemma_comment_lines_add_nothing(lines: Seq<Seq<char>>, line: Seq<char>, is_csv: bool)
    requires
        trim_spec(line).len() == 0 || trim_spec(line)[0] == '#',
    ensures
        gathered_indicators(lines.push(line), is_csv) == gathered_indicators(lines, is_csv),
        listed_indicators(lines.push(line), is_csv) == listed_indicators(lines, is_csv),
{
    assert(lines.push(line).drop_last() =~= lines);
}

/// From a text report, the scan reads each line that is neither blank nor a comment, trimmed:
/// every indicator it reads is such a line, and it reads one from each such line.
pub proof fn lemma_text_report_indicators(lines: Seq<Seq<char>>)
    ensures
        forall|i: int|
            0 <= i < gathered_indicators(lines, false).len() ==> {
                let x = #[trigger] gathered_indicators(lines, false)[i];
                &&& x.len() > 0
                &&& x[0] != '#'
                &&& exists|j: int| 0 <= j < lines.len() && x == trim_spec(lines[j])
            },
        forall|line: Seq<char>|
            !(trim_spec(line).len() == 0 || trim_spec(line)[0] == '#') ==> #[trigger] gathered_indicators(
                lines.push(line),
                false,
            ) == gathered_indicators(lines, false).push(trim_spec(line)),
    decreases lines.len(),
{
    assert forall|line: Seq<char>|
        !(trim_spec(line).len() == 0 || trim_spec(line)[0] == '#') implies #[trigger] gathered_indicators(
            lines.push(line),
            false,
        ) == gathered_indicators(lines, false).push(trim_spec(line)) by {
        assert(lines.push(line).drop_last() =~= lines);
    }
    if lines.len() > 0 {
        let p = lines.drop_last();
        lemma_text_report_indicators(p);
        let g = gathered_indicators(lines, false);
        let gp = gathered_indicators(p, false);
        assert forall|i: int| 0 <= i < g.len() implies {
            let x = #[trigger] g[i];
            &&& x.len() > 0
            &&& x[0] != '#'
            &&& exists|j: int| 0 <= j < lines.len() && x == trim_spec(lines[j])
        } by {
            if i < gp.len() {
                assert(g[i] == gp[i]);
                let j = choose|j: int| 0 <= j < p.len() && gp[i] == trim_spec(p[j]);
                assert(lines[j] == p[j]);
            } else {
                assert(lines[lines.len() - 1] == lines.last());
            }
        }
    }
}

} // verus!
