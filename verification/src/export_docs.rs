//! The JSON and STIX export documents, written as `serde_json`'s pretty printer lays out the
//! original's values: keys in sorted order (its default map is ordered), two spaces of indent,
//! `": "` after a key, and `[]` for an empty list.

use vstd::prelude::*;
use vstd::string::*;
use crate::export::{indicator_lines, ExportEntry, Exporter};
use crate::indicators::export_kind;
use crate::json_text::{json_quoted, quote_json};
use crate::text::{decimal, string_views, u64_to_decimal};

verus! {

/// The (value, type) pairs of export entries.
pub open spec fn entry_pairs(es: Seq<ExportEntry>) -> Seq<(Seq<char>, Seq<char>)> {
    Seq::new(es.len(), |i: int| (es[i].value@, es[i].indicator_type@))
}

/// The (value, type) pairs that a report's lines give an export: each indicator line with the
/// type the export gives it.
pub open spec fn report_pairs(lines: Seq<Seq<char>>) -> Seq<(Seq<char>, Seq<char>)> {
    let ts = indicator_lines(lines);
    Seq::new(ts.len(), |i: int| (ts[i], export_kind(ts[i], "file"@)))
}

/// One indicator of the JSON export: its source report, type and value.
pub open spec fn json_indicator(source: Seq<char>, e: (Seq<char>, Seq<char>)) -> Seq<char> {
    "    {\n      \"source\": "@ + json_quoted(source) + ",\n      \"type\": "@ + json_quoted(e.1)
        + ",\n      \"value\": "@ + json_quoted(e.0) + "\n    }"@
}

/// The indicators of the JSON export, each after a newline, separated by commas.
pub open spec fn json_indicator_items(source: Seq<char>, es: Seq<(Seq<char>, Seq<char>)>) -> Seq<
    char,
>
    decreases es.len(),
{
    if es.len() == 0 {
        seq![]
    } else {
        json_indicator_items(source, es.drop_last()) + (if es.len() == 1 {
            "\n"@
        } else {
            ",\n"@
        }) + json_indicator(source, es.last())
    }
}

/// The JSON export of a report: `export_info` (export date, report name and path, the tool,
/// the number of indicators and the tool's version), then the indicators.
pub open spec fn json_export_text(
    name: Seq<char>,
    path: Seq<char>,
    version: Seq<char>,
    date: nat,
    es: Seq<(Seq<char>, Seq<char>)>,
) -> Seq<char> {
    "{\n  \"export_info\": {\n    \"export_date\": "@ + decimal(date) + ",\n    \"report_name\": "@
        + json_quoted(name) + ",\n    \"report_path\": "@ + json_quoted(path)
        + ",\n    \"tool\": \"malScraper\",\n    \"total_indicators\": "@ + decimal(es.len())
        + ",\n    \"version\": "@ + json_quoted(version) + "\n  },\n  \"indicators\": "@ + (if es.len()
        == 0 {
        "[]"@
    } else {
        "["@ + json_indicator_items(name, es) + "\n  ]"@
    }) + "\n}"@
}

/// One STIX 2.1 indicator object: created, modified and valid from `created`, identified by
/// `indicator--<id>`, with the indicator's pattern and a description naming the report.
pub open spec fn stix_object(
    name: Seq<char>,
    created: Seq<char>,
    id: Seq<char>,
    e: (Seq<char>, Seq<char>),
) -> Seq<char> {
    "    {\n      \"created\": "@ + json_quoted(created) + ",\n      \"description\": "@ + json_quoted(
        "Indicator from "@ + name + " report"@,
    ) + ",\n      \"id\": "@ + json_quoted("indicator--"@ + id)
        + ",\n      \"labels\": [\n        \"malicious-activity\"\n      ],\n      \"modified\": "@
        + json_quoted(created) + ",\n      \"pattern\": "@ + json_quoted(
        "["@ + e.1 + ":value = '"@ + e.0 + "']"@,
    )
        + ",\n      \"pattern_type\": \"stix\",\n      \"spec_version\": \"2.1\",\n      \"type\": \"indicator\",\n      \"valid_from\": "@
        + json_quoted(created) + "\n    }"@
}

/// The objects of a STIX bundle, the `i`-th with the `i`-th identifier, each after a newline,
/// separated by commas.
pub open spec fn stix_items(
    name: Seq<char>,
    created: Seq<char>,
    ids: Seq<Seq<char>>,
    es: Seq<(Seq<char>, Seq<char>)>,
) -> Seq<char>
    decreases es.len(),
{
    if es.len() == 0 {
        seq![]
    } else {
        stix_items(name, created, ids, es.drop_last()) + (if es.len() == 1 {
            "\n"@
        } else {
            ",\n"@
        }) + stix_object(name, created, ids[es.len() - 1], es.last())
    }
}

/// The STIX 2.1 bundle of a report: identified by `bundle--<bundle_id>`, holding one indicator
/// object per indicator.
pub open spec fn stix_bundle_text(
    name: Seq<char>,
    created: Seq<char>,
    bundle_id: Seq<char>,
    ids: Seq<Seq<char>>,
    es: Seq<(Seq<char>, Seq<char>)>,
) -> Seq<char> {
    "{\n  \"id\": "@ + json_quoted("bundle--"@ + bundle_id) + ",\n  \"objects\": "@ + (if es.len()
        == 0 {
        "[]"@
    } else {
        "["@ + stix_items(name, created, ids, es) + "\n  ]"@
    }) + ",\n  \"spec_version\": \"2.1\",\n  \"type\": \"bundle\"\n}"@
}

/// Text of the shape `uuid::Uuid::new_v4` displays: 36 characters, hyphens at 8, 13, 18 and 23,
/// lowercase hexadecimal digits elsewhere, version digit `4` at 14 and variant digit `8`, `9`,
/// `a` or `b` at 19.
pub open spec fn is_uuid_v4_text(s: Seq<char>) -> bool {
    &&& s.len() == 36
    &&& forall|i: int|
        0 <= i < 36 ==> if i == 8 || i == 13 || i == 18 || i == 23 {
            #[trigger] s[i] == '-'
        } else {
            ('0' <= s[i] <= '9') || ('a' <= s[i] <= 'f')
        }
    &&& s[14] == '4'
    &&& (s[19] == '8' || s[19] == '9' || s[19] == 'a' || s[19] == 'b')
}

/// Calls `uuid::Uuid::new_v4` and displays the result. The identifier is random; what holds of
/// every one is its shape: `new_v4` masks in version 4 and the RFC 4122 variant, and `Display`
/// writes the hyphenated lowercase form.
#[verifier::external_body]
fn new_uuid_v4() -> (r: String)
    ensures
        is_uuid_v4_text(r@),
{
    uuid::Uuid::new_v4().to_string()
}

/// The time `secs` seconds after the Unix epoch, in UTC, as chrono formats it with
/// `%Y-%m-%dT%H:%M:%S%.3fZ`; `None` where chrono has no such time.
pub uninterp spec fn utc_millis_text(secs: i64) -> Option<Seq<char>>;

/// Calls `chrono::DateTime::<Utc>::from_timestamp_secs` and formats the time with
/// `%Y-%m-%dT%H:%M:%S%.3fZ`. The text is named by `utc_millis_text`; the calendar arithmetic
/// behind it is not restated.
#[verifier::external_body]
fn utc_millis(secs: i64) -> (r: Option<String>)
    ensures
        match r {
            Some(t) => utc_millis_text(secs) == Some(t@),
            None => utc_millis_text(secs) is None,
        },
{
    match chrono::DateTime::<chrono::Utc>::from_timestamp_secs(secs) {
        Some(d) => Some(d.format("%Y-%m-%dT%H:%M:%S%.3fZ").to_string()),
        None => None,
    }
}

fn json_indicator_text(source: &str, e: &ExportEntry) -> (r: String)
    ensures
        r@ == json_indicator(source@, (e.value@, e.indicator_type@)),
{
    let mut r = "    {\n      \"source\": ".to_string();
    r.append(quote_json(source).as_str());
    r.append(",\n      \"type\": ");
    r.append(quote_json(e.indicator_type.as_str()).as_str());
    r.append(",\n      \"value\": ");
    r.append(quote_json(e.value.as_str()).as_str());
    r.append("\n    }");
    r
}

/// The JSON export document of the entries of a report, exported on `export_date` by the tool
/// at `version`.
pub fn json_export_document(
    entries: &Vec<ExportEntry>,
    report_display: &str,
    report_path: &str,
    version: &str,
    export_date: u64,
) -> (r: String)
    ensures
        r@ == json_export_text(
            report_display@,
            report_path@,
            version@,
            export_date as nat,
            entry_pairs(entries@),
        ),
{
    let ghost es = entry_pairs(entries@);
    let mut r = "{\n  \"export_info\": {\n    \"export_date\": ".to_string();
    r.append(u64_to_decimal(export_date).as_str());
    r.append(",\n    \"report_name\": ");
    r.append(quote_json(report_display).as_str());
    r.append(",\n    \"report_path\": ");
    r.append(quote_json(report_path).as_str());
    r.append(",\n    \"tool\": \"malScraper\",\n    \"total_indicators\": ");
    r.append(u64_to_decimal(entries.len() as u64).as_str());
    r.append(",\n    \"version\": ");
    r.append(quote_json(version).as_str());
    r.append("\n  },\n  \"indicators\": ");
    let ghost head = r@;
    if entries.len() == 0 {
        r.append("[]");
    } else {
        r.append("[");
        let mut k: usize = 0;
        while k < entries.len()
            invariant
                k <= entries@.len(),
                es == entry_pairs(entries@),
                r@ == head + "["@ + json_indicator_items(report_display@, es.take(k as int)),
            decreases entries@.len() - k,
        {
            proof {
                assert(es.take(k + 1).drop_last() =~= es.take(k as int));
                assert(es.take(k + 1).last() == es[k as int]);
            }
            if k == 0 {
                r.append("\n");
            } else {
                r.append(",\n");
            }
            r.append(json_indicator_text(report_display, &entries[k]).as_str());
            k += 1;
        }
        assert(es.take(entries@.len() as int) =~= es);
        r.append("\n  ]");
        assert(r@ =~= head + ("["@ + json_indicator_items(report_display@, es) + "\n  ]"@));
    }
    r.append("\n}");
    r
}

fn stix_object_text(name: &str, created: &str, id: &str, e: &ExportEntry) -> (r: String)
    ensures
        r@ == stix_object(name@, created@, id@, (e.value@, e.indicator_type@)),
{
    let mut full_id = "indicator--".to_string();
    full_id.append(id);
    let mut r = "    {\n      \"created\": ".to_string();
    r.append(quote_json(created).as_str());
    r.append(",\n      \"description\": ");
    r.append(quote_json(Exporter::stix_description(name).as_str()).as_str());
    r.append(",\n      \"id\": ");
    r.append(quote_json(full_id.as_str()).as_str());
    r.append(
        ",\n      \"labels\": [\n        \"malicious-activity\"\n      ],\n      \"modified\": ",
    );
    r.append(quote_json(created).as_str());
    r.append(",\n      \"pattern\": ");
    r.append(quote_json(Exporter::stix_pattern(e).as_str()).as_str());
    r.append(
        ",\n      \"pattern_type\": \"stix\",\n      \"spec_version\": \"2.1\",\n      \"type\": \"indicator\",\n      \"valid_from\": ",
    );
    r.append(quote_json(created).as_str());
    r.append("\n    }");
    r
}

/// The STIX 2.1 bundle of the entries of a report: the bundle identified by `bundle_id`, the
/// `i`-th object by the `i`-th of `object_ids`, all created at `created`.
pub fn stix_bundle_document(
    entries: &Vec<ExportEntry>,
    report_display: &str,
    created: &str,
    bundle_id: &str,
    object_ids: &Vec<String>,
) -> (r: String)
    requires
        object_ids@.len() >= entries@.len(),
    ensures
        r@ == stix_bundle_text(
            report_display@,
            created@,
            bundle_id@,
            string_views(object_ids@),
            entry_pairs(entries@),
        ),
{
    let ghost es = entry_pairs(entries@);
    let ghost ids = string_views(object_ids@);
    let mut full_id = "bundle--".to_string();
    full_id.append(bundle_id);
    let mut r = "{\n  \"id\": ".to_string();
    r.append(quote_json(full_id.as_str()).as_str());
    r.append(",\n  \"objects\": ");
    let ghost head = r@;
    if entries.len() == 0 {
        r.append("[]");
    } else {
        r.append("[");
        let mut k: usize = 0;
        while k < entries.len()
            invariant
                k <= entries@.len(),
                entries@.len() <= object_ids@.len(),
                es == entry_pairs(entries@),
                ids == string_views(object_ids@),
                r@ == head + "["@ + stix_items(report_display@, created@, ids, es.take(k as int)),
            decreases entries@.len() - k,
        {
            proof {
                assert(es.take(k + 1).drop_last() =~= es.take(k as int));
                assert(es.take(k + 1).last() == es[k as int]);
            }
            if k == 0 {
                r.append("\n");
            } else {
                r.append(",\n");
            }
            let obj = stix_object_text(report_display, created, object_ids[k].as_str(), &entries[k]);
            r.append(obj.as_str());
            k += 1;
        }
        assert(es.take(entries@.len() as int) =~= es);
        r.append("\n  ]");
        assert(r@ =~= head + ("["@ + stix_items(report_display@, created@, ids, es) + "\n  ]"@));
    }
    r.append(",\n  \"spec_version\": \"2.1\",\n  \"type\": \"bundle\"\n}");
    r
}

impl Exporter {
    /// The creation time of a STIX export made `secs` seconds after the Unix epoch, as chrono
    /// formats it; `None` where chrono has no such time.
    pub fn stix_time(secs: i64) -> (r: Option<String>)
        ensures
            match r {
                Some(t) => utc_millis_text(secs) == Some(t@),
                None => utc_millis_text(secs) is None,
            },
    {
        utc_millis(secs)
    }

    /// Fresh random identifiers for a STIX bundle and `count` objects.
    pub fn new_stix_ids(count: usize) -> (r: (String, Vec<String>))
        ensures
            is_uuid_v4_text(r.0@),
            r.1@.len() == count,
            forall|i: int| 0 <= i < count ==> is_uuid_v4_text(#[trigger] r.1@[i]@),
    {
        let bundle = new_uuid_v4();
        let mut ids: Vec<String> = Vec::new();
        let mut k: usize = 0;
        while k < count
            invariant
                k <= count,
                ids@.len() == k,
                forall|i: int| 0 <= i < k ==> is_uuid_v4_text(#[trigger] ids@[i]@),
            decreases count - k,
        {
            ids.push(new_uuid_v4());
            k += 1;
        }
        (bundle, ids)
    }
}

} // verus!
