//! Validating the indicators of a report: their kind, whether they are well formed, and whether
//! they are still live.

use vstd::prelude::*;
use vstd::string::*;
use crate::config::Paths;
use crate::export::{export_alias, export_alias_kind};
use crate::indicators::{
    is_hash, is_url, is_valid_domain, looks_like_hash, looks_like_url, validate_domain_format,
};
use crate::reading::{list_indicators, listed_indicators};
use crate::sets::{dedup, IndicatorSet};
use crate::text::{lowercase, str_eq, string_views, to_lowercase, trim, trim_spec};

verus! {

/// What validating one indicator found.
#[derive(Debug)]
pub struct ValidationResult {
    pub indicator: String,
    pub indicator_type: String,
    pub is_valid_format: bool,
    pub is_active: Option<bool>,
    pub error: Option<String>,
}

/// How an indicator reads as an IP address (`str::parse::<std::net::IpAddr>`).
#[derive(Debug, Clone, Copy, PartialEq, Eq, Structural)]
pub enum IpParse {
    NotAnAddress,
    V4,
    V6,
}

/// The counts a validation reports.
#[derive(Debug, Clone, Copy, PartialEq, Eq, Structural)]
pub struct ValidationSummary {
    pub total: usize,
    pub valid_format: usize,
    pub invalid_format: usize,
    pub active: usize,
    pub inactive: usize,
    pub not_checked: usize,
}

pub struct Validator;

/// The kind of a trimmed indicator: an IP address where it parses as one, else a URL, a digest,
/// or a domain.
pub open spec fn indicator_kind(t: Seq<char>, ip: IpParse) -> Seq<char> {
    if ip != IpParse::NotAnAddress {
        "IP Address"@
    } else if is_url(t) {
        "URL"@
    } else if is_hash(t) {
        "Hash"@
    } else {
        "Domain"@
    }
}

/// Whether a trimmed indicator is well formed for its kind: an IPv4 address, a plausible domain;
/// URLs and digests are taken as they are.
pub open spec fn well_formed(t: Seq<char>, ip: IpParse) -> bool {
    if ip != IpParse::NotAnAddress {
        ip == IpParse::V4
    } else if is_url(t) || is_hash(t) {
        true
    } else {
        is_valid_domain(t)
    }
}

/// Whether validating the indicator looks its domain up: it is a well-formed domain.
pub open spec fn spec_needs_lookup(t: Seq<char>, ip: IpParse) -> bool {
    indicator_kind(t, ip) == "Domain"@ && well_formed(t, ip)
}

/// Whether the indicator is live: a well-formed domain is live as its lookup found; a
/// well-formed IP address is taken as live; anything else is not checked.
pub open spec fn activity(t: Seq<char>, ip: IpParse, resolved: bool) -> Option<bool> {
    if spec_needs_lookup(t, ip) {
        Some(resolved)
    } else if ip == IpParse::V4 {
        Some(true)
    } else {
        None
    }
}

proof fn lemma_kind_names_differ()
    ensures
        "IP Address"@ != "Domain"@,
        "URL"@ != "Domain"@,
        "Hash"@ != "Domain"@,
{
    reveal_strlit("IP Address");
    reveal_strlit("URL");
    reveal_strlit("Hash");
    reveal_strlit("Domain");
    assert("IP Address"@.len() != "Domain"@.len());
    assert("URL"@.len() != "Domain"@.len());
    assert("Hash"@.len() != "Domain"@.len());
}

/// How many results are well formed.
pub open spec fn count_valid(rs: Seq<ValidationResult>) -> nat
    decreases rs.len(),
{
    if rs.len() == 0 {
        0
    } else {
        count_valid(rs.drop_last()) + if rs.last().is_valid_format {
            1nat
        } else {
            0nat
        }
    }
}

/// How many results have activity `a`.
pub open spec fn count_activity(rs: Seq<ValidationResult>, a: Option<bool>) -> nat
    decreases rs.len(),
{
    if rs.len() == 0 {
        0
    } else {
        count_activity(rs.drop_last(), a) + if rs.last().is_active == a {
            1nat
        } else {
            0nat
        }
    }
}

/// The indicator types of the results, in order, with repeats.
pub open spec fn result_types(rs: Seq<ValidationResult>) -> Seq<Seq<char>> {
    Seq::new(rs.len(), |i: int| rs[i].indicator_type@)
}

/// How many results have type `t`, and how many of those are well formed.
pub open spec fn count_of_type(rs: Seq<ValidationResult>, t: Seq<char>) -> (nat, nat)
    decreases rs.len(),
{
    if rs.len() == 0 {
        (0, 0)
    } else {
        let (n, v) = count_of_type(rs.drop_last(), t);
        if rs.last().indicator_type@ == t {
            (n + 1, if rs.last().is_valid_format {
                v + 1
            } else {
                v
            })
        } else {
            (n, v)
        }
    }
}

proof fn lemma_count_of_type_bounded(rs: Seq<ValidationResult>, t: Seq<char>)
    ensures
        count_of_type(rs, t).1 <= count_of_type(rs, t).0 <= rs.len(),
    decreases rs.len(),
{
    if rs.len() > 0 {
        lemma_count_of_type_bounded(rs.drop_last(), t);
    }
}

/// Counts the results of one type, and the well-formed ones among them.
fn count_type(results: &Vec<ValidationResult>, t: &str) -> (r: (usize, usize))
    ensures
        r.0 == count_of_type(results@, t@).0,
        r.1 == count_of_type(results@, t@).1,
{
    let mut n: usize = 0;
    let mut v: usize = 0;
    let mut i: usize = 0;
    while i < results.len()
        invariant
            i <= results@.len(),
            n == count_of_type(results@.take(i as int), t@).0,
            v == count_of_type(results@.take(i as int), t@).1,
        decreases results@.len() - i,
    {
        proof {
            assert(results@.take(i + 1).drop_last() =~= results@.take(i as int));
            lemma_count_of_type_bounded(results@.take(i as int), t@);
        }
        let r = &results[i];
        if str_eq(r.indicator_type.as_str(), t) {
            n = n + 1;
            if r.is_valid_format {
                v = v + 1;
            }
        }
        i += 1;
    }
    assert(results@.take(results@.len() as int) =~= results@);
    (n, v)
}

proof fn lemma_counts_bounded(rs: Seq<ValidationResult>)
    ensures
        count_valid(rs) <= rs.len(),
        count_activity(rs, Some(true)) + count_activity(rs, Some(false)) + count_activity(rs, None)
            == rs.len(),
    decreases rs.len(),
{
    if rs.len() > 0 {
        lemma_counts_bounded(rs.drop_last());
        match rs.last().is_active {
            Some(true) => {},
            Some(false) => {},
            None => {},
        }
    }
}

impl Validator {
    /// The location of the report a name designates (case-insensitively), if any.
    pub fn get_report_path<'a>(paths: &'a Paths, report_name: &str) -> (r: Option<&'a String>)
        ensures
            match export_alias(lowercase(report_name@)) {
                Some(k) => r == Some(&paths.spec_report_path(k)),
                None => r is None,
            },
    {
        let lower = to_lowercase(report_name);
        match export_alias_kind(lower.as_str()) {
            Some(k) => Some(paths.report_path(k)),
            None => None,
        }
    }

    /// The indicators of a report, from its lines.
    pub fn read_indicators(lines: &Vec<String>, is_csv: bool) -> (r: Vec<String>)
        ensures
            string_views(r@) == listed_indicators(string_views(lines@), is_csv),
    {
        list_indicators(lines, is_csv)
    }

    /// Whether validating `indicator` looks its domain up; `ip` is how its trimmed text parses as
    /// an IP address.
    pub fn needs_lookup(indicator: &str, ip: IpParse) -> (r: bool)
        ensures
            r == spec_needs_lookup(trim_spec(indicator@), ip),
    {
        let t = trim(indicator);
        proof {
            lemma_kind_names_differ();
        }
        ip == IpParse::NotAnAddress && !looks_like_url(t) && !looks_like_hash(t)
            && validate_domain_format(t)
    }

    /// Validates one indicator. `ip` is how its trimmed text parses as an IP address, and
    /// `resolved` whether the lookup of its domain found an address (it is only read where
    /// `needs_lookup` holds).
    pub fn validate_indicator(indicator: &str, ip: IpParse, resolved: bool) -> (r:
        ValidationResult)
        ensures
            r.indicator@ == trim_spec(indicator@),
            r.indicator_type@ == indicator_kind(trim_spec(indicator@), ip),
            r.is_valid_format == well_formed(trim_spec(indicator@), ip),
            r.is_active == activity(trim_spec(indicator@), ip, resolved),
            r.error is None,
    {
        let t = trim(indicator);
        proof {
            reveal_strlit("IP Address");
            reveal_strlit("URL");
            reveal_strlit("Hash");
            reveal_strlit("Domain");
        }
        let (kind, valid) = if ip != IpParse::NotAnAddress {
            ("IP Address", ip == IpParse::V4)
        } else if looks_like_url(t) {
            ("URL", true)
        } else if looks_like_hash(t) {
            ("Hash", true)
        } else {
            ("Domain", validate_domain_format(t))
        };
        let lookup = Validator::needs_lookup(indicator, ip);
        let is_active = if lookup {
            Some(resolved)
        } else if ip == IpParse::V4 {
            Some(true)
        } else {
            None
        };
        ValidationResult {
            indicator: t.to_string(),
            indicator_type: kind.to_string(),
            is_valid_format: valid,
            is_active,
            error: None,
        }
    }

    /// The results grouped by indicator type, each type once in the order it first occurs:
    /// (type, how many results have it, how many of those are well formed).
    pub fn by_type(results: &Vec<ValidationResult>) -> (r: Vec<(String, usize, usize)>)
        ensures
            r@.len() == dedup(result_types(results@)).len(),
            forall|i: int|
                0 <= i < r@.len() ==> (#[trigger] r@[i]).0@ == dedup(result_types(results@))[i]
                    && (r@[i].1 as nat, r@[i].2 as nat) == count_of_type(results@, r@[i].0@),
    {
        let mut types: Vec<String> = Vec::new();
        let mut i: usize = 0;
        while i < results.len()
            invariant
                i <= results@.len(),
                string_views(types@) == result_types(results@).take(i as int),
            decreases results@.len() - i,
        {
            let ghost before = types@;
            types.push(results[i].indicator_type.clone());
            assert(string_views(types@) =~= string_views(before).push(results@[i as int].indicator_type@));
            assert(result_types(results@).take(i + 1) =~= result_types(results@).take(i as int).push(
                results@[i as int].indicator_type@,
            ));
            i += 1;
        }
        assert(result_types(results@).take(results@.len() as int) =~= result_types(results@));
        let distinct = IndicatorSet::from_strings(&types);
        let items = distinct.items();
        let ghost d = dedup(result_types(results@));
        let mut out: Vec<(String, usize, usize)> = Vec::new();
        let mut k: usize = 0;
        while k < items.len()
            invariant
                k <= items@.len(),
                string_views(items@) == d,
                d == dedup(result_types(results@)),
                out@.len() == k,
                forall|j: int|
                    0 <= j < k ==> (#[trigger] out@[j]).0@ == d[j] && (out@[j].1 as nat, out@[j].2 as nat)
                        == count_of_type(results@, out@[j].0@),
            decreases items@.len() - k,
        {
            let t = &items[k];
            let (n, v) = count_type(results, t.as_str());
            out.push((t.clone(), n, v));
            k += 1;
        }
        out
    }

    /// The counts of a validation.
    pub fn summarize(results: &Vec<ValidationResult>) -> (r: ValidationSummary)
        ensures
            r.total == results@.len(),
            r.valid_format == count_valid(results@),
            r.invalid_format == results@.len() - count_valid(results@),
            r.active == count_activity(results@, Some(true)),
            r.inactive == count_activity(results@, Some(false)),
            r.not_checked == count_activity(results@, None),
    {
        let mut valid: usize = 0;
        let mut active: usize = 0;
        let mut inactive: usize = 0;
        let mut unchecked: usize = 0;
        let mut i: usize = 0;
        while i < results.len()
            invariant
                i <= results@.len(),
                valid == count_valid(results@.take(i as int)),
                active == count_activity(results@.take(i as int), Some(true)),
                inactive == count_activity(results@.take(i as int), Some(false)),
                unchecked == count_activity(results@.take(i as int), None),
                valid <= i,
                active + inactive + unchecked == i,
            decreases results@.len() - i,
        {
            proof {
                assert(results@.take(i + 1).drop_last() =~= results@.take(i as int));
                lemma_counts_bounded(results@.take(i as int));
            }
            let r = &results[i];
            if r.is_valid_format {
                valid = valid + 1;
            }
            match r.is_active {
                Some(true) => active = active + 1,
                Some(false) => inactive = inactive + 1,
                None => unchecked = unchecked + 1,
            }
            i += 1;
        }
        assert(results@.take(results@.len() as int) =~= results@);
        ValidationSummary {
            total: results.len(),
            valid_format: valid,
            invalid_format: results.len() - valid,
            active,
            inactive,
            not_checked: unchecked,
        }
    }
}

/// Every validated indicator is counted once as well formed or not, and once as active,
/// inactive or not checked.
pub proof fn lemma_summary_partitions(results: Seq<ValidationResult>)
    ensures
        count_valid(results) + (results.len() - count_valid(results)) == results.len(),
        count_valid(results) <= results.len(),
        count_activity(results, Some(true)) + count_activity(results, Some(false))
            + count_activity(results, None) == results.len(),
{
    lemma_counts_bounded(results);
}

/// Only a well-formed indicator is ever found live or dead; a malformed one is never checked.
pub proof fn lemma_only_well_formed_are_checked(t: Seq<char>, ip: IpParse, resolved: bool)
    ensures
        activity(t, ip, resolved) is Some ==> well_formed(t, ip),
{
}


/// A digest, 32, 40 or 64 hexadecimal digits that does not parse as an IP address and does not
/// start like a URL, is validated as a "Hash": well formed, never looked up, its activity not
/// checked.
pub proof fn lemma_digests_are_hashes(t: Seq<char>, ip: IpParse, resolved: bool)
    requires
        ip == IpParse::NotAnAddress,
        !"http://"@.is_prefix_of(t),
        !"https://"@.is_prefix_of(t),
        t.len() == 32 || t.len() == 40 || t.len() == 64,
        forall|i: int|
            0 <= i < t.len() ==> ('0' <= #[trigger] t[i] && t[i] <= '9') || ('a' <= t[i] && t[i]
                <= 'f') || ('A' <= t[i] && t[i] <= 'F'),
    ensures
        indicator_kind(t, ip) == "Hash"@,
        well_formed(t, ip),
        !spec_needs_lookup(t, ip),
        activity(t, ip, resolved) is None,
{
    lemma_kind_names_differ();
}

/// A URL, text starting with `http://` or `https://` that does not parse as an IP address, is
/// validated as a "URL": well formed, never looked up, its activity not checked.
pub proof fn lemma_urls_are_urls(t: Seq<char>, ip: IpParse, resolved: bool)
    requires
        ip == IpParse::NotAnAddress,
        "http://"@.is_prefix_of(t) || "https://"@.is_prefix_of(t),
    ensures
        indicator_kind(t, ip) == "URL"@,
        well_formed(t, ip),
        !spec_needs_lookup(t, ip),
        activity(t, ip, resolved) is None,
{
    lemma_kind_names_differ();
}

/// Only domains and IP addresses are checked for activity, and only domains are looked up.
pub proof fn lemma_only_domains_and_addresses_are_checked(t: Seq<char>, ip: IpParse, resolved: bool)
    ensures
        indicator_kind(t, ip) != "Domain"@ && indicator_kind(t, ip) != "IP Address"@ ==> activity(
            t,
            ip,
            resolved,
        ) is None,
        spec_needs_lookup(t, ip) ==> indicator_kind(t, ip) == "Domain"@,
{
}


/// An indicator that parses as an IP address is validated as an "IP Address": well formed
/// exactly when it is IPv4, then taken as live; never looked up.
pub proof fn lemma_addresses_are_addresses(t: Seq<char>, ip: IpParse, resolved: bool)
    requires
        ip != IpParse::NotAnAddress,
    ensures
        indicator_kind(t, ip) == "IP Address"@,
        well_formed(t, ip) == (ip == IpParse::V4),
        !spec_needs_lookup(t, ip),
        activity(t, ip, resolved) == (if ip == IpParse::V4 {
            Some(true)
        } else {
            None::<bool>
        }),
{
    lemma_kind_names_differ();
}

} // verus!
