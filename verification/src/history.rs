//! Scan history: what changed in each report since the previous scan.

use vstd::prelude::*;
use vstd::string::*;
use crate::config::{is_joined, is_verbatim, join_path, Paths, ReportKind};
use crate::reading::{gather_indicators, gathered_indicators};
use crate::sets::{dedup, IndicatorSet};
use crate::text::{clone_strings, string_views};

verus! {

/// The indicators one report held at one scan; an indicator listed twice counts once.
#[derive(Debug)]
pub struct ReportSnapshot {
    pub report_name: String,
    pub indicators: Vec<String>,
    pub timestamp: i64,
}

/// The snapshots of the last scan.
#[derive(Debug)]
pub struct ScanHistory {
    pub snapshots: Vec<ReportSnapshot>,
    pub last_scan_time: i64,
}

/// The indicators one report holds now.
#[derive(Debug)]
pub struct ReportIndicators {
    pub report_name: String,
    pub indicators: Vec<String>,
}

/// How one report differs from its previous snapshot.
#[derive(Debug)]
pub struct SnapshotDiff {
    pub previous_count: usize,
    pub new_indicators: Vec<String>,
    pub removed_indicators: Vec<String>,
    pub unchanged: usize,
}

/// One current report, and its differences from the previous scan if it was in it.
#[derive(Debug)]
pub struct ReportDiff {
    pub report_name: String,
    pub current_count: usize,
    pub against: Option<SnapshotDiff>,
}

/// A report of the previous scan that the current scan no longer has.
#[derive(Debug)]
pub struct VanishedReport {
    pub report_name: String,
    pub previous_count: usize,
}

/// Everything a comparison with the previous scan found, and the history to keep afterwards.
#[derive(Debug)]
pub struct HistoryComparison {
    pub baseline: bool,
    pub reports: Vec<ReportDiff>,
    pub vanished: Vec<VanishedReport>,
    pub total_new: usize,
    pub total_removed: usize,
    pub total_unchanged: usize,
    pub last_scan: Option<i64>,
    pub updated: ScanHistory,
}

pub struct History;

/// The elements of `a` that `b` lacks, in the order of `a`.
pub open spec fn minus(a: Seq<Seq<char>>, b: Seq<Seq<char>>) -> Seq<Seq<char>>
    decreases a.len(),
{
    if a.len() == 0 {
        seq![]
    } else {
        let m = minus(a.drop_last(), b);
        if b.contains(a.last()) {
            m
        } else {
            m.push(a.last())
        }
    }
}

/// How many elements of `a` `b` also holds.
pub open spec fn common_count(a: Seq<Seq<char>>, b: Seq<Seq<char>>) -> nat
    decreases a.len(),
{
    if a.len() == 0 {
        0
    } else {
        common_count(a.drop_last(), b) + if b.contains(a.last()) {
            1nat
        } else {
            0nat
        }
    }
}

/// The position of the first snapshot named `name`.
pub open spec fn first_snapshot(snaps: Seq<ReportSnapshot>, name: Seq<char>) -> Option<int>
    decreases snaps.len(),
{
    if snaps.len() == 0 {
        None
    } else if snaps[0].report_name@ == name {
        Some(0)
    } else {
        match first_snapshot(snaps.drop_first(), name) {
            Some(i) => Some(i + 1),
            None => None,
        }
    }
}

/// The distinct indicators of a snapshot, in the order they were first recorded.
pub open spec fn snap_items(s: ReportSnapshot) -> Seq<Seq<char>> {
    dedup(string_views(s.indicators@))
}

/// The distinct indicators of a current report, in the order they were first listed.
pub open spec fn cur_items(r: ReportIndicators) -> Seq<Seq<char>> {
    dedup(string_views(r.indicators@))
}

/// How many indicators of `r` are new since the previous scan (all of them for a new report).
pub open spec fn new_count(snaps: Seq<ReportSnapshot>, r: ReportIndicators) -> nat {
    match first_snapshot(snaps, r.report_name@) {
        Some(i) => minus(cur_items(r), snap_items(snaps[i])).len(),
        None => cur_items(r).len(),
    }
}

/// How many indicators the previous snapshot of `r` held that `r` no longer holds.
pub open spec fn removed_count(snaps: Seq<ReportSnapshot>, r: ReportIndicators) -> nat {
    match first_snapshot(snaps, r.report_name@) {
        Some(i) => minus(snap_items(snaps[i]), cur_items(r)).len(),
        None => 0,
    }
}

/// How many indicators of `r` its previous snapshot also held.
pub open spec fn unchanged_count(snaps: Seq<ReportSnapshot>, r: ReportIndicators) -> nat {
    match first_snapshot(snaps, r.report_name@) {
        Some(i) => common_count(cur_items(r), snap_items(snaps[i])),
        None => 0,
    }
}

/// New indicators over all current reports.
pub open spec fn sum_new(snaps: Seq<ReportSnapshot>, cur: Seq<ReportIndicators>) -> nat
    decreases cur.len(),
{
    if cur.len() == 0 {
        0
    } else {
        sum_new(snaps, cur.drop_last()) + new_count(snaps, cur.last())
    }
}

/// Removed indicators over all current reports that the previous scan had.
pub open spec fn sum_removed(snaps: Seq<ReportSnapshot>, cur: Seq<ReportIndicators>) -> nat
    decreases cur.len(),
{
    if cur.len() == 0 {
        0
    } else {
        sum_removed(snaps, cur.drop_last()) + removed_count(snaps, cur.last())
    }
}

/// Unchanged indicators over all current reports.
pub open spec fn sum_unchanged(snaps: Seq<ReportSnapshot>, cur: Seq<ReportIndicators>) -> nat
    decreases cur.len(),
{
    if cur.len() == 0 {
        0
    } else {
        sum_unchanged(snaps, cur.drop_last()) + unchanged_count(snaps, cur.last())
    }
}

/// Indicators over all current reports.
pub open spec fn sum_current(cur: Seq<ReportIndicators>) -> nat
    decreases cur.len(),
{
    if cur.len() == 0 {
        0
    } else {
        sum_current(cur.drop_last()) + cur_items(cur.last()).len()
    }
}

/// Whether the current scan has a report named `name`.
pub open spec fn has_report(cur: Seq<ReportIndicators>, name: Seq<char>) -> bool {
    exists|i: int| 0 <= i < cur.len() && (#[trigger] cur[i]).report_name@ == name
}

/// The previous snapshots whose report the current scan no longer has: (name, indicator count).
pub open spec fn vanished_reports(snaps: Seq<ReportSnapshot>, cur: Seq<ReportIndicators>) -> Seq<
    (Seq<char>, nat),
>
    decreases snaps.len(),
{
    if snaps.len() == 0 {
        seq![]
    } else {
        let v = vanished_reports(snaps.drop_last(), cur);
        let s = snaps.last();
        if has_report(cur, s.report_name@) {
            v
        } else {
            v.push((s.report_name@, snap_items(s).len()))
        }
    }
}

/// Indicators of the previous snapshots whose report the current scan no longer has.
pub open spec fn sum_vanished(snaps: Seq<ReportSnapshot>, cur: Seq<ReportIndicators>) -> nat
    decreases snaps.len(),
{
    if snaps.len() == 0 {
        0
    } else {
        sum_vanished(snaps.drop_last(), cur) + if has_report(cur, snaps.last().report_name@) {
            0nat
        } else {
            snap_items(snaps.last()).len()
        }
    }
}

/// The comparison of `cur` with `snaps` fits machine counters.
pub open spec fn totals_fit(snaps: Seq<ReportSnapshot>, cur: Seq<ReportIndicators>) -> bool {
    &&& sum_new(snaps, cur) <= usize::MAX
    &&& sum_removed(snaps, cur) + sum_vanished(snaps, cur) <= usize::MAX
    &&& sum_unchanged(snaps, cur) <= usize::MAX
}

/// Snapshot `s` records report `r`.
pub open spec fn records(s: ReportSnapshot, r: ReportIndicators) -> bool {
    s.report_name@ == r.report_name@ && snap_items(s) == cur_items(r)
}

proof fn lemma_first_snapshot(snaps: Seq<ReportSnapshot>, name: Seq<char>, k: int)
    requires
        0 <= k <= snaps.len(),
        forall|j: int| 0 <= j < k ==> (#[trigger] snaps[j]).report_name@ != name,
    ensures
        k < snaps.len() && snaps[k].report_name@ == name ==> first_snapshot(snaps, name) == Some(k),
        k == snaps.len() ==> first_snapshot(snaps, name) is None,
    decreases k,
{
    if snaps.len() > 0 && k > 0 {
        let t = snaps.drop_first();
        assert forall|j: int| 0 <= j < k - 1 implies (#[trigger] t[j]).report_name@ != name by {
            assert(t[j] == snaps[j + 1]);
        }
        if k < snaps.len() {
            assert(t[k - 1] == snaps[k]);
        }
        lemma_first_snapshot(t, name, k - 1);
    }
}

/// `first_snapshot` points at a snapshot with that name, before which there is none.
pub proof fn lemma_first_snapshot_found(snaps: Seq<ReportSnapshot>, name: Seq<char>)
    ensures
        first_snapshot(snaps, name) matches Some(i) ==> 0 <= i < snaps.len()
            && snaps[i].report_name@ == name && forall|j: int|
            0 <= j < i ==> (#[trigger] snaps[j]).report_name@ != name,
        first_snapshot(snaps, name) is None ==> forall|j: int|
            0 <= j < snaps.len() ==> (#[trigger] snaps[j]).report_name@ != name,
    decreases snaps.len(),
{
    if snaps.len() > 0 && snaps[0].report_name@ != name {
        let t = snaps.drop_first();
        lemma_first_snapshot_found(t, name);
        assert forall|j: int| 1 <= j < snaps.len() implies snaps[j] == t[j - 1] by {}
    }
}

fn find_snapshot(snaps: &Vec<ReportSnapshot>, name: &String) -> (r: Option<usize>)
    ensures
        match r {
            Some(i) => first_snapshot(snaps@, name@) == Some(i as int),
            None => first_snapshot(snaps@, name@) is None,
        },
{
    let mut k: usize = 0;
    while k < snaps.len()
        invariant
            k <= snaps@.len(),
            forall|j: int| 0 <= j < k ==> (#[trigger] snaps@[j]).report_name@ != name@,
        decreases snaps@.len() - k,
    {
        if snaps[k].report_name == *name {
            proof {
                lemma_first_snapshot(snaps@, name@, k as int);
            }
            return Some(k);
        }
        k += 1;
    }
    proof {
        lemma_first_snapshot(snaps@, name@, k as int);
    }
    None
}

/// Compares one report with its previous snapshot.
fn diff_against(prev: &ReportSnapshot, cur: &ReportIndicators) -> (d: SnapshotDiff)
    ensures
        d.previous_count == snap_items(*prev).len(),
        string_views(d.new_indicators@) == minus(cur_items(*cur), snap_items(*prev)),
        string_views(d.removed_indicators@) == minus(snap_items(*prev), cur_items(*cur)),
        d.unchanged == common_count(cur_items(*cur), snap_items(*prev)),
{
    let pset = IndicatorSet::from_strings(&prev.indicators);
    let cset = IndicatorSet::from_strings(&cur.indicators);
    proof {
        crate::sets::lemma_dedup(string_views(prev.indicators@));
        crate::sets::lemma_dedup(string_views(cur.indicators@));
    }
    let ghost c = cur_items(*cur);
    let ghost p = snap_items(*prev);
    let citems = cset.items();
    let pitems = pset.items();
    let mut new_indicators: Vec<String> = Vec::new();
    let mut unchanged: usize = 0;
    let mut k: usize = 0;
    while k < citems.len()
        invariant
            k <= c.len(),
            c == cur_items(*cur),
            p == snap_items(*prev),
            string_views(citems@) == c,
            pset.wf(),
            pset@ == p,
            forall|x: Seq<char>| pset@.contains(x) <==> p.contains(x),
            string_views(new_indicators@) == minus(c.take(k as int), p),
            unchanged == common_count(c.take(k as int), p),
            unchanged <= k,
        decreases c.len() - k,
    {
        proof {
            assert(c.take(k + 1).drop_last() =~= c.take(k as int));
            assert(c.take(k + 1).last() == c[k as int]);
        }
        let item = &citems[k];
        if pset.contains(item.as_str()) {
            unchanged += 1;
        } else {
            let ghost before = new_indicators@;
            new_indicators.push(item.clone());
            assert(string_views(new_indicators@) =~= string_views(before).push(c[k as int]));
        }
        k += 1;
    }
    assert(c.take(c.len() as int) =~= c);
    let mut removed_indicators: Vec<String> = Vec::new();
    let mut k: usize = 0;
    while k < pitems.len()
        invariant
            k <= p.len(),
            c == cur_items(*cur),
            p == snap_items(*prev),
            string_views(pitems@) == p,
            cset.wf(),
            forall|x: Seq<char>| cset@.contains(x) <==> c.contains(x),
            string_views(removed_indicators@) == minus(p.take(k as int), c),
        decreases p.len() - k,
    {
        proof {
            assert(p.take(k + 1).drop_last() =~= p.take(k as int));
            assert(p.take(k + 1).last() == p[k as int]);
        }
        let item = &pitems[k];
        if !cset.contains(item.as_str()) {
            let ghost before = removed_indicators@;
            removed_indicators.push(item.clone());
            assert(string_views(removed_indicators@) =~= string_views(before).push(p[k as int]));
        }
        k += 1;
    }
    assert(p.take(p.len() as int) =~= p);
    SnapshotDiff {
        previous_count: pset.len(),
        new_indicators,
        removed_indicators,
        unchanged,
    }
}

fn current_has_report(cur: &Vec<ReportIndicators>, name: &String) -> (r: bool)
    ensures
        r == has_report(cur@, name@),
{
    let mut k: usize = 0;
    while k < cur.len()
        invariant
            k <= cur@.len(),
            forall|j: int| 0 <= j < k ==> (#[trigger] cur@[j]).report_name@ != name@,
        decreases cur@.len() - k,
    {
        if cur[k].report_name == *name {
            return true;
        }
        k += 1;
    }
    false
}

proof fn lemma_sums_monotone(snaps: Seq<ReportSnapshot>, cur: Seq<ReportIndicators>, k: int)
    requires
        0 <= k <= cur.len(),
    ensures
        sum_new(snaps, cur.take(k)) <= sum_new(snaps, cur),
        sum_removed(snaps, cur.take(k)) <= sum_removed(snaps, cur),
        sum_unchanged(snaps, cur.take(k)) <= sum_unchanged(snaps, cur),
    decreases cur.len() - k,
{
    if k < cur.len() {
        lemma_sums_monotone(snaps, cur.drop_last(), k);
        assert(cur.drop_last().take(k) =~= cur.take(k));
    } else {
        assert(cur.take(k) =~= cur);
    }
}

proof fn lemma_vanished_monotone(snaps: Seq<ReportSnapshot>, cur: Seq<ReportIndicators>, k: int)
    requires
        0 <= k <= snaps.len(),
    ensures
        sum_vanished(snaps.take(k), cur) <= sum_vanished(snaps, cur),
    decreases snaps.len() - k,
{
    if k < snaps.len() {
        lemma_vanished_monotone(snaps.drop_last(), cur, k);
        assert(snaps.drop_last().take(k) =~= snaps.take(k));
    } else {
        assert(snaps.take(k) =~= snaps);
    }
}

impl History {
    /// Compares the current scan with the previous one. Without a previous scan, the current
    /// one becomes the baseline. In either case the updated history records the current scan,
    /// stamped with `current_time`.
    pub fn compare_with_history(
        history: &ScanHistory,
        current: Vec<ReportIndicators>,
        current_time: i64,
    ) -> (r: HistoryComparison)
        requires
            totals_fit(history.snapshots@, current@),
        ensures
            r.baseline == (history.snapshots@.len() == 0),
            r.updated.last_scan_time == current_time,
            r.updated.snapshots@.len() == current@.len(),
            forall|i: int|
                0 <= i < current@.len() ==> records(#[trigger] r.updated.snapshots@[i], current@[i])
                    && r.updated.snapshots@[i].timestamp == current_time,
            r.baseline ==> r.reports@.len() == 0 && r.vanished@.len() == 0 && r.total_new == 0
                && r.total_removed == 0 && r.total_unchanged == 0 && r.last_scan is None,
            !r.baseline ==> {
                &&& r.last_scan == Some(history.snapshots@[0].timestamp)
                &&& r.total_new == sum_new(history.snapshots@, current@)
                &&& r.total_removed == sum_removed(history.snapshots@, current@) + sum_vanished(
                    history.snapshots@,
                    current@,
                )
                &&& r.total_unchanged == sum_unchanged(history.snapshots@, current@)
                &&& r.reports@.len() == current@.len()
                &&& forall|i: int|
                    #![trigger r.reports@[i]]
                    0 <= i < current@.len() ==> {
                        let d = r.reports@[i];
                        let c = current@[i];
                        &&& d.report_name@ == c.report_name@
                        &&& d.current_count == cur_items(c).len()
                        &&& match first_snapshot(history.snapshots@, c.report_name@) {
                            None => d.against is None,
                            Some(j) => d.against matches Some(a) && {
                                let p = history.snapshots@[j];
                                &&& a.previous_count == snap_items(p).len()
                                &&& string_views(a.new_indicators@) == minus(
                                    cur_items(c),
                                    snap_items(p),
                                )
                                &&& string_views(a.removed_indicators@) == minus(
                                    snap_items(p),
                                    cur_items(c),
                                )
                                &&& a.unchanged == common_count(cur_items(c), snap_items(p))
                            },
                        }
                    }
                &&& r.vanished@.len() == vanished_reports(history.snapshots@, current@).len()
                &&& forall|i: int|
                    #![trigger r.vanished@[i]]
                    0 <= i < r.vanished@.len() ==> (r.vanished@[i].report_name@,
                    r.vanished@[i].previous_count as nat) == vanished_reports(
                        history.snapshots@,
                        current@,
                    )[i]
            },
    {
        let snaps = &history.snapshots;
        let baseline = snaps.len() == 0;
        let mut reports: Vec<ReportDiff> = Vec::new();
        let mut vanished: Vec<VanishedReport> = Vec::new();
        let mut total_new: usize = 0;
        let mut total_removed: usize = 0;
        let mut total_unchanged: usize = 0;
        let mut last_scan: Option<i64> = None;
        if !baseline {
            last_scan = Some(snaps[0].timestamp);
            let mut k: usize = 0;
            while k < current.len()
                invariant
                    k <= current@.len(),
                    totals_fit(snaps@, current@),
                    reports@.len() == k,
                    total_new == sum_new(snaps@, current@.take(k as int)),
                    total_removed == sum_removed(snaps@, current@.take(k as int)),
                    total_unchanged == sum_unchanged(snaps@, current@.take(k as int)),
                    forall|i: int|
                        #![trigger reports@[i]]
                        0 <= i < k ==> {
                            let d = reports@[i];
                            let c = current@[i];
                            &&& d.report_name@ == c.report_name@
                            &&& d.current_count == cur_items(c).len()
                            &&& match first_snapshot(snaps@, c.report_name@) {
                                None => d.against is None,
                                Some(j) => d.against matches Some(a) && {
                                    let p = snaps@[j];
                                    &&& a.previous_count == snap_items(p).len()
                                    &&& string_views(a.new_indicators@) == minus(
                                        cur_items(c),
                                        snap_items(p),
                                    )
                                    &&& string_views(a.removed_indicators@) == minus(
                                        snap_items(p),
                                        cur_items(c),
                                    )
                                    &&& a.unchanged == common_count(cur_items(c), snap_items(p))
                                },
                            }
                        },
                decreases current@.len() - k,
            {
                proof {
                    assert(current@.take(k + 1).drop_last() =~= current@.take(k as int));
                    assert(current@.take(k + 1).last() == current@[k as int]);
                    lemma_sums_monotone(snaps@, current@, k + 1);
                }
                let c = &current[k];
                let count = IndicatorSet::from_strings(&c.indicators).len();
                let found = find_snapshot(snaps, &c.report_name);
                proof {
                    lemma_first_snapshot_found(snaps@, c.report_name@);
                }
                let against = match found {
                    Some(j) => {
                        let d = diff_against(&snaps[j], c);
                        proof {
                            lemma_minus_partition(cur_items(*c), snap_items(snaps@[j as int]));
                        }
                        total_new = total_new + d.new_indicators.len();
                        total_removed = total_removed + d.removed_indicators.len();
                        total_unchanged = total_unchanged + d.unchanged;
                        Some(d)
                    },
                    None => {
                        total_new = total_new + count;
                        None
                    },
                };
                reports.push(ReportDiff { report_name: c.report_name.clone(), current_count: count, against });
                k += 1;
            }
            assert(current@.take(current@.len() as int) =~= current@);
            let mut k: usize = 0;
            while k < snaps.len()
                invariant
                    k <= snaps@.len(),
                    totals_fit(snaps@, current@),
                    total_removed == sum_removed(snaps@, current@) + sum_vanished(
                        snaps@.take(k as int),
                        current@,
                    ),
                    vanished@.len() == vanished_reports(snaps@.take(k as int), current@).len(),
                    forall|i: int|
                        #![trigger vanished@[i]]
                        0 <= i < vanished@.len() ==> (vanished@[i].report_name@,
                        vanished@[i].previous_count as nat) == vanished_reports(
                            snaps@.take(k as int),
                            current@,
                        )[i],
                decreases snaps@.len() - k,
            {
                proof {
                    assert(snaps@.take(k + 1).drop_last() =~= snaps@.take(k as int));
                    assert(snaps@.take(k + 1).last() == snaps@[k as int]);
                    lemma_vanished_monotone(snaps@, current@, k + 1);
                }
                let s = &snaps[k];
                if !current_has_report(&current, &s.report_name) {
                    let count = IndicatorSet::from_strings(&s.indicators).len();
                    total_removed = total_removed + count;
                    vanished.push(VanishedReport { report_name: s.report_name.clone(), previous_count: count });
                }
                k += 1;
            }
            assert(snaps@.take(snaps@.len() as int) =~= snaps@);
        }
        let mut updated: Vec<ReportSnapshot> = Vec::new();
        let mut k: usize = 0;
        while k < current.len()
            invariant
                k <= current@.len(),
                updated@.len() == k,
                forall|i: int|
                    0 <= i < k ==> records(#[trigger] updated@[i], current@[i])
                        && updated@[i].timestamp == current_time,
            decreases current@.len() - k,
        {
            let c = &current[k];
            updated.push(
                ReportSnapshot {
                    report_name: c.report_name.clone(),
                    indicators: clone_strings(&c.indicators),
                    timestamp: current_time,
                },
            );
            k += 1;
        }
        HistoryComparison {
            baseline,
            reports,
            vanished,
            total_new,
            total_removed,
            total_unchanged,
            last_scan,
            updated: ScanHistory { snapshots: updated, last_scan_time: current_time },
        }
    }
}

/// Every element of `a` is either absent from `b` (and listed by `minus`) or counted by
/// `common_count`.
pub proof fn lemma_minus_partition(a: Seq<Seq<char>>, b: Seq<Seq<char>>)
    ensures
        minus(a, b).len() + common_count(a, b) == a.len(),
    decreases a.len(),
{
    if a.len() > 0 {
        lemma_minus_partition(a.drop_last(), b);
    }
}

} // verus!

verus! {

/// A list holding only elements of `b` has nothing outside `b`, and all of it is in common.
pub proof fn lemma_minus_of_subset(a: Seq<Seq<char>>, b: Seq<Seq<char>>)
    requires
        forall|i: int| 0 <= i < a.len() ==> b.contains(#[trigger] a[i]),
    ensures
        minus(a, b).len() == 0,
        common_count(a, b) == a.len(),
    decreases a.len(),
{
    if a.len() > 0 {
        let p = a.drop_last();
        assert forall|i: int| 0 <= i < p.len() implies b.contains(#[trigger] p[i]) by {
            assert(p[i] == a[i]);
        }
        lemma_minus_of_subset(p, b);
        assert(b.contains(a[a.len() - 1]));
    }
}

/// `minus` keeps, in order and once each, the elements of a list without repeats that the
/// other list lacks.
pub proof fn lemma_minus_distinct(a: Seq<Seq<char>>, b: Seq<Seq<char>>)
    requires
        a.no_duplicates(),
    ensures
        minus(a, b).no_duplicates(),
        forall|x: Seq<char>| #[trigger] minus(a, b).contains(x) <==> a.contains(x) && !b.contains(x),
    decreases a.len(),
{
    if a.len() > 0 {
        let p = a.drop_last();
        let y = a.last();
        assert(p.no_duplicates()) by {
            assert forall|i: int, j: int| 0 <= i < p.len() && 0 <= j < p.len() && i != j implies p[i]
                != p[j] by {
                assert(p[i] == a[i]);
                assert(p[j] == a[j]);
            }
        }
        assert(!p.contains(y)) by {
            if p.contains(y) {
                let i = choose|i: int| 0 <= i < p.len() && p[i] == y;
                assert(a[i] == a[a.len() - 1]);
            }
        }
        lemma_minus_distinct(p, b);
        assert(a =~= p.push(y));
        crate::sets::lemma_push_contains(p, y);
        let m = minus(p, b);
        crate::sets::lemma_push_contains(m, y);
        if !b.contains(y) {
            crate::sets::lemma_push_distinct(m, y);
        }
        assert forall|x: Seq<char>| #[trigger] minus(a, b).contains(x) <==> a.contains(x) && !b.contains(
            x,
        ) by {
            assert(p.push(y).contains(x) <==> (p.contains(x) || x == y));
            assert(m.push(y).contains(x) <==> (m.contains(x) || x == y));
        }
    }
}

/// For a list without repeats, `common_count` is the size of the intersection of the sets.
pub proof fn lemma_common_count_set(a: Seq<Seq<char>>, b: Seq<Seq<char>>)
    requires
        a.no_duplicates(),
    ensures
        common_count(a, b) == a.to_set().intersect(b.to_set()).len(),
    decreases a.len(),
{
    broadcast use vstd::seq_lib::seq_to_set_is_finite;

    if a.len() == 0 {
        assert(a.to_set().intersect(b.to_set()) =~= Set::<Seq<char>>::empty());
    } else {
        let p = a.drop_last();
        let x = a.last();
        assert(p.no_duplicates()) by {
            assert forall|i: int, j: int| 0 <= i < p.len() && 0 <= j < p.len() && i != j implies p[i]
                != p[j] by {
                assert(p[i] == a[i]);
                assert(p[j] == a[j]);
            }
        }
        assert(!p.contains(x)) by {
            if p.contains(x) {
                let i = choose|i: int| 0 <= i < p.len() && p[i] == x;
                assert(a[i] == a[a.len() - 1]);
            }
        }
        lemma_common_count_set(p, b);
        assert(a =~= p.push(x));
        crate::sets::lemma_push_contains(p, x);
        let prev = p.to_set().intersect(b.to_set());
        let cur = a.to_set().intersect(b.to_set());
        assert(!prev.contains(x));
        assert(prev.finite());
        if b.contains(x) {
            assert(cur =~= prev.insert(x)) by {
                assert forall|y: Seq<char>| cur.contains(y) == prev.insert(x).contains(y) by {
                    assert(p.push(x).contains(y) <==> (p.contains(y) || y == x));
                }
            }
        } else {
            assert(cur =~= prev) by {
                assert forall|y: Seq<char>| cur.contains(y) == prev.contains(y) by {
                    assert(p.push(x).contains(y) <==> (p.contains(y) || y == x));
                }
            }
        }
    }
}

/// Every indicator a report holds now is counted either as new or as unchanged.
pub proof fn lemma_current_partition(snaps: Seq<ReportSnapshot>, r: ReportIndicators)
    ensures
        new_count(snaps, r) + unchanged_count(snaps, r) == cur_items(r).len(),
{
    if let Some(i) = first_snapshot(snaps, r.report_name@) {
        lemma_minus_partition(cur_items(r), snap_items(snaps[i]));
    }
}

/// Over a whole scan, the new and the unchanged indicators together are all current ones.
pub proof fn lemma_scan_partition(snaps: Seq<ReportSnapshot>, cur: Seq<ReportIndicators>)
    ensures
        sum_new(snaps, cur) + sum_unchanged(snaps, cur) == sum_current(cur),
    decreases cur.len(),
{
    if cur.len() > 0 {
        lemma_scan_partition(snaps, cur.drop_last());
        lemma_current_partition(snaps, cur.last());
    }
}

/// Every distinct indicator of the previous snapshot is counted either as removed or as
/// unchanged.
pub proof fn lemma_previous_partition(snaps: Seq<ReportSnapshot>, r: ReportIndicators)
    ensures
        first_snapshot(snaps, r.report_name@) matches Some(i) ==> removed_count(snaps, r)
            + unchanged_count(snaps, r) == snap_items(snaps[i]).len(),
{
    lemma_first_snapshot_found(snaps, r.report_name@);
    if let Some(i) = first_snapshot(snaps, r.report_name@) {
        let c = cur_items(r);
        let p = snap_items(snaps[i]);
        crate::sets::lemma_dedup(string_views(r.indicators@));
        crate::sets::lemma_dedup(string_views(snaps[i].indicators@));
        lemma_minus_partition(p, c);
        lemma_common_count_set(p, c);
        lemma_common_count_set(c, p);
        assert(p.to_set().intersect(c.to_set()) =~= c.to_set().intersect(p.to_set()));
    }
}

/// Comparing a scan with the history that its own comparison left behind finds nothing new,
/// nothing removed and every indicator unchanged, provided no two reports share a name.
pub proof fn lemma_repeated_comparison_is_quiet(
    snaps: Seq<ReportSnapshot>,
    cur: Seq<ReportIndicators>,
)
    requires
        snaps.len() == cur.len(),
        forall|i: int| 0 <= i < cur.len() ==> records(#[trigger] snaps[i], cur[i]),
        forall|i: int, j: int|
            0 <= i < j < cur.len() ==> (#[trigger] cur[i]).report_name@ != (#[trigger] cur[j]).report_name@,
    ensures
        sum_new(snaps, cur) == 0,
        sum_removed(snaps, cur) == 0,
        sum_vanished(snaps, cur) == 0,
        sum_unchanged(snaps, cur) == sum_current(cur),
{
    lemma_quiet_prefix(snaps, cur, cur.len() as int);
    assert(cur.take(cur.len() as int) =~= cur);
    lemma_no_vanished_prefix(snaps, cur, snaps.len() as int);
    assert(snaps.take(snaps.len() as int) =~= snaps);
}

proof fn lemma_quiet_prefix(snaps: Seq<ReportSnapshot>, cur: Seq<ReportIndicators>, k: int)
    requires
        0 <= k <= cur.len(),
        snaps.len() == cur.len(),
        forall|i: int| 0 <= i < cur.len() ==> records(#[trigger] snaps[i], cur[i]),
        forall|i: int, j: int|
            0 <= i < j < cur.len() ==> (#[trigger] cur[i]).report_name@ != (#[trigger] cur[j]).report_name@,
    ensures
        sum_new(snaps, cur.take(k)) == 0,
        sum_removed(snaps, cur.take(k)) == 0,
        sum_unchanged(snaps, cur.take(k)) == sum_current(cur.take(k)),
    decreases k,
{
    if k > 0 {
        lemma_quiet_prefix(snaps, cur, k - 1);
        let t = cur.take(k);
        assert(t.drop_last() =~= cur.take(k - 1));
        let r = cur[k - 1];
        assert(t.last() == r);
        assert forall|j: int| 0 <= j < k - 1 implies (#[trigger] snaps[j]).report_name@
            != r.report_name@ by {
            assert(records(snaps[j], cur[j]));
        }
        assert(records(snaps[k - 1], cur[k - 1]));
        lemma_first_snapshot(snaps, r.report_name@, k - 1);
        let c = cur_items(r);
        assert forall|i: int| 0 <= i < c.len() implies c.contains(#[trigger] c[i]) by {}
        lemma_minus_of_subset(c, c);
    }
}

proof fn lemma_no_vanished_prefix(snaps: Seq<ReportSnapshot>, cur: Seq<ReportIndicators>, k: int)
    requires
        0 <= k <= snaps.len(),
        snaps.len() == cur.len(),
        forall|i: int| 0 <= i < cur.len() ==> records(#[trigger] snaps[i], cur[i]),
    ensures
        sum_vanished(snaps.take(k), cur) == 0,
    decreases k,
{
    if k > 0 {
        lemma_no_vanished_prefix(snaps, cur, k - 1);
        let t = snaps.take(k);
        assert(t.drop_last() =~= snaps.take(k - 1));
        assert(t.last() == snaps[k - 1]);
        assert(records(snaps[k - 1], cur[k - 1]));
        assert(has_report(cur, snaps[k - 1].report_name@));
    }
}


/// The report indicators a scan collects: for each report that could be read, in the order
/// given, its display name and the distinct indicators of its lines.
pub open spec fn collected(reports: Seq<(ReportKind, Option<Vec<String>>)>) -> Seq<(Seq<char>, Seq<Seq<char>>)>
    decreases reports.len(),
{
    if reports.len() == 0 {
        seq![]
    } else {
        let p = collected(reports.drop_last());
        let (kind, lines) = reports.last();
        match lines {
            Some(ls) => p.push(
                (kind.spec_display_name(), dedup(gathered_indicators(string_views(ls@), kind.spec_is_csv()))),
            ),
            None => p,
        }
    }
}

impl History {
    /// Where the scan history is kept: `scan_history.json` in the base directory.
    pub fn get_history_path(paths: &Paths) -> (r: String)
        ensures
            !is_verbatim(paths.base_dir@) ==> is_joined(r@, paths.base_dir@, "scan_history.json"@),
    {
        proof {
            reveal_strlit("scan_history.json");
        }
        join_path(paths.base_dir.as_str(), "scan_history.json")
    }

    /// The distinct indicators of a report, from its lines.
    pub fn read_indicators(lines: &Vec<String>, is_csv: bool) -> (r: IndicatorSet)
        ensures
            r.wf(),
            r@ == dedup(gathered_indicators(string_views(lines@), is_csv)),
    {
        let all = gather_indicators(lines, is_csv);
        IndicatorSet::from_strings(&all)
    }

    /// The indicators each report holds now. Each entry pairs a report with its lines, or
    /// `None` where the report is missing or could not be read; those are left out.
    pub fn collect_current_indicators(reports: Vec<(ReportKind, Option<Vec<String>>)>) -> (r: Vec<
        ReportIndicators,
    >)
        ensures
            r@.len() == collected(reports@).len(),
            forall|i: int|
                0 <= i < r@.len() ==> (#[trigger] r@[i]).report_name@ == collected(reports@)[i].0
                    && cur_items(r@[i]) == collected(reports@)[i].1,
    {
        let ghost rs = reports@;
        let mut out: Vec<ReportIndicators> = Vec::new();
        let mut k: usize = 0;
        while k < reports.len()
            invariant
                k <= reports@.len(),
                rs == reports@,
                out@.len() == collected(rs.take(k as int)).len(),
                forall|i: int|
                    0 <= i < out@.len() ==> (#[trigger] out@[i]).report_name@ == collected(
                        rs.take(k as int),
                    )[i].0 && cur_items(out@[i]) == collected(rs.take(k as int))[i].1,
            decreases reports@.len() - k,
        {
            proof {
                assert(rs.take(k + 1).drop_last() =~= rs.take(k as int));
                assert(rs.take(k + 1).last() == rs[k as int]);
            }
            let kind = reports[k].0;
            match &reports[k].1 {
                Some(lines) => {
                    let set = History::read_indicators(lines, kind.is_csv());
                    proof {
                        set.lemma_distinct();
                        crate::sets::lemma_dedup_of_distinct(set@);
                    }
                    out.push(
                        ReportIndicators {
                            report_name: kind.display_name().to_string(),
                            indicators: set.into_items(),
                        },
                    );
                },
                None => {},
            }
            k += 1;
        }
        assert(rs.take(reports@.len() as int) =~= rs);
        out
    }
}

} // verus!
