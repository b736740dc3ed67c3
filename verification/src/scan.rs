//! The outcome of the downloads of a scan.

use vstd::prelude::*;
use crate::text::{str_eq, string_views};

verus! {

/// Whether each download of a scan succeeded, by name; a name recorded again keeps its latest
/// outcome.
#[derive(Debug)]
pub struct DownloadStatus {
    names: Vec<String>,
    outcomes: Vec<bool>,
}

/// The counts a scan reports, and the names of the failed downloads.
#[derive(Debug)]
pub struct DownloadSummary {
    pub succeeded: usize,
    pub total: usize,
    pub failed: Vec<String>,
}

/// How many of the outcomes are successes.
pub open spec fn count_true(s: Seq<bool>) -> nat
    decreases s.len(),
{
    if s.len() == 0 {
        0
    } else {
        count_true(s.drop_last()) + if s.last() {
            1nat
        } else {
            0nat
        }
    }
}

/// The names whose outcome is a failure, in order.
pub open spec fn failed_names(names: Seq<Seq<char>>, outcomes: Seq<bool>) -> Seq<Seq<char>>
    decreases names.len(),
{
    if names.len() == 0 || outcomes.len() == 0 {
        seq![]
    } else {
        let p = failed_names(names.drop_last(), outcomes.drop_last());
        if outcomes.last() {
            p
        } else {
            p.push(names.last())
        }
    }
}

impl DownloadStatus {
    /// The names recorded, each once, in the order first recorded.
    pub closed spec fn names(&self) -> Seq<Seq<char>> {
        string_views(self.names@)
    }

    /// The outcome of each recorded name, in the same order.
    pub closed spec fn outcomes(&self) -> Seq<bool> {
        self.outcomes@
    }

    /// One outcome per name, and no name twice.
    pub open spec fn wf(&self) -> bool {
        &&& self.names().len() == self.outcomes().len()
        &&& self.names().no_duplicates()
    }

    /// No download recorded yet.
    pub fn new() -> (r: DownloadStatus)
        ensures
            r.wf(),
            r.names().len() == 0,
    {
        let r = DownloadStatus { names: Vec::new(), outcomes: Vec::new() };
        assert(r.names() =~= Seq::<Seq<char>>::empty());
        r
    }

    /// Records the outcome of a download: a new name is added at the end, a known one gets the
    /// new outcome in its place.
    pub fn record(&mut self, name: &str, ok: bool)
        requires
            old(self).wf(),
        ensures
            final(self).wf(),
            old(self).names().contains(name@) ==> final(self).names() == old(self).names()
                && final(self).outcomes() == old(self).outcomes().update(
                old(self).names().index_of(name@),
                ok,
            ),
            !old(self).names().contains(name@) ==> final(self).names() == old(self).names().push(
                name@,
            ) && final(self).outcomes() == old(self).outcomes().push(ok),
    {
        let ghost ns = self.names();
        let mut i: usize = 0;
        while i < self.names.len()
            invariant
                i <= self.names@.len(),
                ns == string_views(self.names@),
                ns == old(self).names(),
                self.names@ == old(self).names@,
                self.outcomes@ == old(self).outcomes@,
                self.names@.len() == self.outcomes@.len(),
                ns.no_duplicates(),
                forall|j: int| 0 <= j < i ==> ns[j] != name@,
            decreases self.names@.len() - i,
        {
            if str_eq(self.names[i].as_str(), name) {
                proof {
                    assert(ns[i as int] == name@);
                    assert(ns.contains(name@));
                    assert(ns.index_of(name@) == i as int) by {
                        let k = ns.index_of(name@);
                        assert(ns[k] == name@);
                    }
                }
                self.outcomes.set(i, ok);
                return;
            }
            i += 1;
        }
        proof {
            assert(!ns.contains(name@)) by {
                if ns.contains(name@) {
                    let k = choose|k: int| 0 <= k < ns.len() && ns[k] == name@;
                    assert(ns[k] != name@);
                }
            }
        }
        let ghost before = self.names@;
        self.names.push(name.to_string());
        self.outcomes.push(ok);
        assert(self.outcomes@ =~= old(self).outcomes@.push(ok));
        proof {
            assert(string_views(self.names@) =~= string_views(before).push(name@));
            assert forall|a: int, b: int|
                0 <= a < b < self.names().len() implies self.names()[a] != self.names()[b] by {
                if b == ns.len() {
                    assert(self.names()[a] == ns[a]);
                }
            }
        }
    }

    /// The number of successes, the number of downloads, and the names of the failed ones.
    pub fn summary(&self) -> (r: DownloadSummary)
        requires
            self.wf(),
        ensures
            r.succeeded == count_true(self.outcomes()),
            r.total == self.names().len(),
            string_views(r.failed@) == failed_names(self.names(), self.outcomes()),
    {
        let mut succeeded: usize = 0;
        let mut failed: Vec<String> = Vec::new();
        let ghost ns = self.names();
        let ghost os = self.outcomes();
        let mut i: usize = 0;
        assert(ns.take(0) =~= Seq::<Seq<char>>::empty());
        while i < self.names.len()
            invariant
                i <= self.names@.len(),
                ns == string_views(self.names@),
                os == self.outcomes@,
                ns.len() == os.len(),
                succeeded == count_true(os.take(i as int)),
                succeeded <= i,
                string_views(failed@) == failed_names(ns.take(i as int), os.take(i as int)),
            decreases self.names@.len() - i,
        {
            proof {
                assert(ns.take(i + 1).drop_last() =~= ns.take(i as int));
                assert(os.take(i + 1).drop_last() =~= os.take(i as int));
            }
            if self.outcomes[i] {
                succeeded = succeeded + 1;
            } else {
                let ghost before = failed@;
                let n = self.names[i].clone();
                failed.push(n);
                assert(string_views(failed@) =~= string_views(before).push(ns[i as int]));
            }
            i += 1;
        }
        assert(ns.take(ns.len() as int) =~= ns);
        assert(os.take(os.len() as int) =~= os);
        DownloadSummary { succeeded, total: self.names.len(), failed }
    }
}

/// Every recorded download either succeeded or is listed as failed.
pub proof fn lemma_summary_partitions(names: Seq<Seq<char>>, outcomes: Seq<bool>)
    requires
        names.len() == outcomes.len(),
    ensures
        count_true(outcomes) + failed_names(names, outcomes).len() == names.len(),
    decreases names.len(),
{
    if names.len() > 0 {
        lemma_summary_partitions(names.drop_last(), outcomes.drop_last());
    }
}

} // verus!
