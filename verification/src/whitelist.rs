//! Whitelisted indicators: known-good values to exclude from reports.

use vstd::prelude::*;
use vstd::string::*;
use crate::config::{is_joined, is_verbatim, join_path, Paths};
use crate::indicators::{detect_indicator_type, whitelist_kind};
use crate::sets::{dedup, lemma_dedup, IndicatorSet};
use crate::text::{is_ascii_seq, lowercase, string_views, to_lowercase, trim, trim_spec};

verus! {

/// A whitelisted indicator.
#[derive(Debug)]
pub struct WhitelistEntry {
    pub indicator: String,
    pub indicator_type: String,
    pub added_date: String,
    pub reason: Option<String>,
}

/// Why a whitelist operation was refused.
#[derive(Debug)]
pub enum WhitelistError {
    AlreadyWhitelisted { indicator: String },
    NotFound { indicator: String },
}

pub struct WhitelistManager;

/// The text under which an indicator is looked up: trimmed, then lowercased.
pub open spec fn whitelist_key(indicator: Seq<char>) -> Seq<char> {
    lowercase(trim_spec(indicator))
}

/// The text under which an entry is matched: its indicator, lowercased.
pub open spec fn entry_key(e: WhitelistEntry) -> Seq<char> {
    lowercase(e.indicator@)
}

/// Whether some entry matches `key`.
pub open spec fn has_key(entries: Seq<WhitelistEntry>, key: Seq<char>) -> bool {
    exists|i: int| 0 <= i < entries.len() && entry_key(#[trigger] entries[i]) == key
}

/// Whether `indicator` is whitelisted by `entries`.
pub open spec fn whitelisted(entries: Seq<WhitelistEntry>, indicator: Seq<char>) -> bool {
    has_key(entries, whitelist_key(indicator))
}

/// The entries that do not match `key`, in order.
pub open spec fn without_key(entries: Seq<WhitelistEntry>, key: Seq<char>) -> Seq<WhitelistEntry>
    decreases entries.len(),
{
    if entries.len() == 0 {
        seq![]
    } else {
        let p = without_key(entries.drop_last(), key);
        if entry_key(entries.last()) == key {
            p
        } else {
            p.push(entries.last())
        }
    }
}

/// The keys of the entries, in order, with repeats.
pub open spec fn entry_keys(entries: Seq<WhitelistEntry>) -> Seq<Seq<char>> {
    entries.map_values(|e: WhitelistEntry| entry_key(e))
}

/// The indicators that `entries` do not whitelist, in order.
pub open spec fn not_whitelisted(entries: Seq<WhitelistEntry>, indicators: Seq<Seq<char>>) -> Seq<
    Seq<char>,
>
    decreases indicators.len(),
{
    if indicators.len() == 0 {
        seq![]
    } else {
        let p = not_whitelisted(entries, indicators.drop_last());
        if whitelisted(entries, indicators.last()) {
            p
        } else {
            p.push(indicators.last())
        }
    }
}

fn copy_entry(e: &WhitelistEntry) -> (r: WhitelistEntry)
    ensures
        r == *e,
{
    let reason = match &e.reason {
        Some(x) => Some(x.clone()),
        None => None,
    };
    WhitelistEntry {
        indicator: e.indicator.clone(),
        indicator_type: e.indicator_type.clone(),
        added_date: e.added_date.clone(),
        reason,
    }
}

fn find_key(entries: &Vec<WhitelistEntry>, key: &str) -> (r: bool)
    ensures
        r == has_key(entries@, key@),
{
    let mut k: usize = 0;
    while k < entries.len()
        invariant
            k <= entries@.len(),
            forall|j: int| 0 <= j < k ==> entry_key(#[trigger] entries@[j]) != key@,
        decreases entries@.len() - k,
    {
        let lower = to_lowercase(entries[k].indicator.as_str());
        if crate::text::str_eq(lower.as_str(), key) {
            return true;
        }
        k += 1;
    }
    false
}

impl WhitelistManager {
    /// Where the whitelist is kept: `whitelist.json` in the base directory.
    pub fn get_whitelist_path(paths: &Paths) -> (r: String)
        ensures
            !is_verbatim(paths.base_dir@) ==> is_joined(r@, paths.base_dir@, "whitelist.json"@),
    {
        proof {
            reveal_strlit("whitelist.json");
        }
        join_path(paths.base_dir.as_str(), "whitelist.json")
    }
    /// Whitelists `indicator` (stored trimmed and lowercased, with its detected kind), unless an
    /// entry already matches it.
    pub fn add_indicator(
        entries: &mut Vec<WhitelistEntry>,
        indicator: &str,
        reason: Option<String>,
        added_date: String,
    ) -> (r: Result<(), WhitelistError>)
        ensures
            has_key(old(entries)@, whitelist_key(indicator@)) ==> (r matches Err(
                WhitelistError::AlreadyWhitelisted { indicator: i },
            ) && i@ == indicator@ && final(entries)@ == old(entries)@),
            !has_key(old(entries)@, whitelist_key(indicator@)) ==> (r is Ok && final(entries)@
                == old(entries)@.push(
                WhitelistEntry {
                    indicator: final(entries)@.last().indicator,
                    indicator_type: final(entries)@.last().indicator_type,
                    added_date,
                    reason,
                },
            ) && final(entries)@.last().indicator@ == whitelist_key(indicator@)
                && final(entries)@.last().indicator_type@ == whitelist_kind(
                whitelist_key(indicator@),
            ) && (is_ascii_seq(trim_spec(indicator@)) ==> lowercase(
                final(entries)@.last().indicator@,
            ) == final(entries)@.last().indicator@)),
    {
        let key = to_lowercase(trim(indicator));
        if find_key(entries, key.as_str()) {
            return Err(WhitelistError::AlreadyWhitelisted { indicator: indicator.to_owned() });
        }
        let indicator_type = detect_indicator_type(key.as_str());
        entries.push(WhitelistEntry { indicator: key, indicator_type, added_date, reason });
        Ok(())
    }

    /// Removes every entry that matches `indicator`; it is an error when none does.
    pub fn remove_indicator(entries: &mut Vec<WhitelistEntry>, indicator: &str) -> (r: Result<
        (),
        WhitelistError,
    >)
        ensures
            final(entries)@ == without_key(old(entries)@, whitelist_key(indicator@)),
            r is Ok <==> has_key(old(entries)@, whitelist_key(indicator@)),
            r matches Err(e) ==> (e matches WhitelistError::NotFound { indicator: i } && i@
                == indicator@),
    {
        let key = to_lowercase(trim(indicator));
        let ghost k = key@;
        let ghost old_entries = entries@;
        let mut kept: Vec<WhitelistEntry> = Vec::new();
        let mut found = false;
        let mut i: usize = 0;
        while i < entries.len()
            invariant
                i <= old_entries.len(),
                entries@ == old_entries,
                k == key@,
                kept@ == without_key(old_entries.take(i as int), k),
                found == has_key(old_entries.take(i as int), k),
                kept@.len() + (if found { 1int } else { 0int }) <= i,
                !found ==> kept@.len() == i,
            decreases old_entries.len() - i,
        {
            proof {
                let t = old_entries.take(i + 1);
                assert(t.drop_last() =~= old_entries.take(i as int));
                assert(t.last() == old_entries[i as int]);
                if has_key(old_entries.take(i as int), k) {
                    let j = choose|j: int|
                        0 <= j < i && entry_key(#[trigger] old_entries.take(i as int)[j]) == k;
                    assert(t[j] == old_entries.take(i as int)[j]);
                }
                if has_key(t, k) {
                    let j = choose|j: int| 0 <= j < i + 1 && entry_key(#[trigger] t[j]) == k;
                    if j < i {
                        assert(old_entries.take(i as int)[j] == t[j]);
                    }
                }
            }
            let lower = to_lowercase(entries[i].indicator.as_str());
            if crate::text::str_eq(lower.as_str(), key.as_str()) {
                found = true;
            } else {
                kept.push(copy_entry(&entries[i]));
            }
            i += 1;
        }
        assert(old_entries.take(old_entries.len() as int) =~= old_entries);
        *entries = kept;
        if !found {
            return Err(WhitelistError::NotFound { indicator: indicator.to_owned() });
        }
        Ok(())
    }

    /// The lowercased indicators of all entries, each once.
    pub fn get_whitelist_set(entries: &Vec<WhitelistEntry>) -> (r: IndicatorSet)
        ensures
            r.wf(),
            r@ == dedup(entry_keys(entries@)),
            forall|x: Seq<char>| #[trigger] r@.contains(x) <==> has_key(entries@, x),
    {
        let mut keys: Vec<String> = Vec::new();
        let mut i: usize = 0;
        while i < entries.len()
            invariant
                i <= entries@.len(),
                string_views(keys@) =~= entry_keys(entries@).take(i as int),
            decreases entries@.len() - i,
        {
            let ghost before = keys@;
            keys.push(to_lowercase(entries[i].indicator.as_str()));
            assert(string_views(keys@) =~= string_views(before).push(entry_key(entries@[i as int])));
            i += 1;
        }
        assert(entry_keys(entries@).take(entries@.len() as int) =~= entry_keys(entries@));
        let r = IndicatorSet::from_strings(&keys);
        proof {
            lemma_dedup(entry_keys(entries@));
            assert forall|x: Seq<char>| #[trigger] r@.contains(x) <==> has_key(entries@, x) by {
                let ks = entry_keys(entries@);
                if ks.contains(x) {
                    let j = choose|j: int| 0 <= j < ks.len() && ks[j] == x;
                    assert(entry_key(entries@[j]) == x);
                }
                if has_key(entries@, x) {
                    let j = choose|j: int| 0 <= j < entries@.len() && entry_key(#[trigger] entries@[j]) == x;
                    assert(ks[j] == x);
                }
            }
        }
        r
    }

    /// Whether `indicator` (trimmed and lowercased) matches an entry.
    pub fn is_whitelisted(entries: &Vec<WhitelistEntry>, indicator: &str) -> (r: bool)
        ensures
            r == whitelisted(entries@, indicator@),
    {
        let set = WhitelistManager::get_whitelist_set(entries);
        let key = to_lowercase(trim(indicator));
        set.contains(key.as_str())
    }

    /// The indicators that no entry matches, in order.
    pub fn filter_indicators(entries: &Vec<WhitelistEntry>, indicators: &Vec<String>) -> (r: Vec<
        String,
    >)
        ensures
            string_views(r@) == not_whitelisted(entries@, string_views(indicators@)),
    {
        let set = WhitelistManager::get_whitelist_set(entries);
        let ghost xs = string_views(indicators@);
        let mut out: Vec<String> = Vec::new();
        let mut i: usize = 0;
        while i < indicators.len()
            invariant
                i <= indicators@.len(),
                xs == string_views(indicators@),
                set.wf(),
                forall|x: Seq<char>| #[trigger] set@.contains(x) <==> has_key(entries@, x),
                string_views(out@) == not_whitelisted(entries@, xs.take(i as int)),
            decreases indicators@.len() - i,
        {
            proof {
                assert(xs.take(i + 1).drop_last() =~= xs.take(i as int));
                assert(xs.take(i + 1).last() == indicators@[i as int]@);
            }
            let key = to_lowercase(trim(indicators[i].as_str()));
            if !set.contains(key.as_str()) {
                let ghost before = out@;
                out.push(indicators[i].clone());
                assert(string_views(out@) =~= string_views(before).push(indicators@[i as int]@));
            }
            i += 1;
        }
        assert(xs.take(indicators@.len() as int) =~= xs);
        out
    }
}

/// Removing an indicator leaves no entry that matches it.
pub proof fn lemma_removed_is_not_whitelisted(entries: Seq<WhitelistEntry>, indicator: Seq<char>)
    ensures
        !whitelisted(without_key(entries, whitelist_key(indicator)), indicator),
    decreases entries.len(),
{
    let k = whitelist_key(indicator);
    if entries.len() > 0 {
        lemma_removed_is_not_whitelisted(entries.drop_last(), indicator);
        let p = without_key(entries.drop_last(), k);
        if entry_key(entries.last()) != k {
            assert forall|i: int| 0 <= i < p.push(entries.last()).len() implies entry_key(
                #[trigger] p.push(entries.last())[i],
            ) != k by {
                if i < p.len() {
                    assert(p.push(entries.last())[i] == p[i]);
                }
            }
        }
    }
}

/// An indicator just whitelisted is whitelisted, provided lowercasing its stored form changes
/// nothing (the stored form is already lowercase).
pub proof fn lemma_added_is_whitelisted(
    entries: Seq<WhitelistEntry>,
    added: WhitelistEntry,
    indicator: Seq<char>,
)
    requires
        added.indicator@ == whitelist_key(indicator),
        lowercase(whitelist_key(indicator)) == whitelist_key(indicator),
    ensures
        whitelisted(entries.push(added), indicator),
{
    assert(entries.push(added)[entries.len() as int] == added);
}

/// Filtering keeps exactly the indicators that the whitelist does not match.
pub proof fn lemma_filter_keeps_exactly(entries: Seq<WhitelistEntry>, indicators: Seq<Seq<char>>)
    ensures
        forall|x: Seq<char>|
            #[trigger] not_whitelisted(entries, indicators).contains(x) <==> (indicators.contains(x)
                && !whitelisted(entries, x)),
    decreases indicators.len(),
{
    if indicators.len() > 0 {
        let p = indicators.drop_last();
        let y = indicators.last();
        lemma_filter_keeps_exactly(entries, p);
        assert(indicators =~= p.push(y));
        crate::sets::lemma_push_contains(p, y);
        crate::sets::lemma_push_contains(not_whitelisted(entries, p), y);
    }
}


/// Removing a key that no entry matches leaves the entries as they are.
pub proof fn lemma_without_absent_key(entries: Seq<WhitelistEntry>, key: Seq<char>)
    requires
        !has_key(entries, key),
    ensures
        without_key(entries, key) == entries,
    decreases entries.len(),
{
    if entries.len() > 0 {
        let p = entries.drop_last();
        assert(!has_key(p, key)) by {
            if has_key(p, key) {
                let i = choose|i: int| 0 <= i < p.len() && entry_key(#[trigger] p[i]) == key;
                assert(entries[i] == p[i]);
            }
        }
        lemma_without_absent_key(p, key);
        assert(entries[entries.len() - 1] == entries.last());
        assert(entries =~= p.push(entries.last()));
    }
}

/// Removing an indicator right after it was added gives back the whitelist as it was before,
/// entry for entry, and the indicator is no longer whitelisted; provided its stored form
/// (trimmed and lowercased) lowercases to itself, which `add_indicator` guarantees for ASCII
/// text.
pub proof fn lemma_add_then_remove(
    entries: Seq<WhitelistEntry>,
    added: WhitelistEntry,
    indicator: Seq<char>,
)
    requires
        !has_key(entries, whitelist_key(indicator)),
        added.indicator@ == whitelist_key(indicator),
        lowercase(added.indicator@) == added.indicator@,
    ensures
        has_key(entries.push(added), whitelist_key(indicator)),
        without_key(entries.push(added), whitelist_key(indicator)) == entries,
        !whitelisted(without_key(entries.push(added), whitelist_key(indicator)), indicator),
{
    let k = whitelist_key(indicator);
    let t = entries.push(added);
    assert(t[entries.len() as int] == added);
    assert(t.drop_last() =~= entries);
    lemma_without_absent_key(entries, k);
    lemma_removed_is_not_whitelisted(t, indicator);
}

} // verus!
