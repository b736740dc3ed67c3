//! Exporting a report as firewall rules or for security tools.

use vstd::prelude::*;
use vstd::string::*;
use crate::config::{Paths, ReportKind, CURRENT_VERSION};
use crate::export_docs::{
    entry_pairs, json_export_document, json_export_text, report_pairs, stix_bundle_document,
    stix_bundle_text,
};
use crate::indicators::{dotted_quad, export_indicator_type, export_kind, is_dotted_quad};
use crate::text::{
    ascii_lower_char, is_ascii_seq,
    decimal, join_space, lowercase, replace_all, replace_spec, str_eq, string_views, to_lowercase,
    trim, trim_spec, u64_to_decimal,
};

verus! {

/// The formats a report can be exported to.
#[derive(Debug, Clone, Copy, PartialEq, Eq, Structural)]
pub enum ExportFormat {
    Iptables,
    WindowsFirewall,
    PfSense,
    Json,
    Csv,
    Stix,
    Taxii,
}

/// The format a (lowercased) format name designates.
pub open spec fn format_named(s: Seq<char>) -> Option<ExportFormat> {
    if s == "iptables"@ || s == "iptable"@ {
        Some(ExportFormat::Iptables)
    } else if s == "windows"@ || s == "win"@ || s == "windows-firewall"@ || s == "winfw"@ {
        Some(ExportFormat::WindowsFirewall)
    } else if s == "pfsense"@ || s == "pf"@ {
        Some(ExportFormat::PfSense)
    } else if s == "json"@ {
        Some(ExportFormat::Json)
    } else if s == "csv"@ {
        Some(ExportFormat::Csv)
    } else if s == "stix"@ {
        Some(ExportFormat::Stix)
    } else if s == "taxii"@ {
        Some(ExportFormat::Taxii)
    } else {
        None
    }
}

impl ExportFormat {
    /// The format a name designates, compared in lowercase.
    pub fn from_str(s: &str) -> (r: Option<ExportFormat>)
        ensures
            r == format_named(lowercase(s@)),
            is_ascii_seq(s@) ==> r == format_named(s@.map_values(|c: char| ascii_lower_char(c))),
    {
        let lower = to_lowercase(s);
        let l = lower.as_str();
        if str_eq(l, "iptables") || str_eq(l, "iptable") {
            Some(ExportFormat::Iptables)
        } else if str_eq(l, "windows") || str_eq(l, "win") || str_eq(l, "windows-firewall")
            || str_eq(l, "winfw") {
            Some(ExportFormat::WindowsFirewall)
        } else if str_eq(l, "pfsense") || str_eq(l, "pf") {
            Some(ExportFormat::PfSense)
        } else if str_eq(l, "json") {
            Some(ExportFormat::Json)
        } else if str_eq(l, "csv") {
            Some(ExportFormat::Csv)
        } else if str_eq(l, "stix") {
            Some(ExportFormat::Stix)
        } else if str_eq(l, "taxii") {
            Some(ExportFormat::Taxii)
        } else {
            None
        }
    }

    /// The canonical name of the format.
    pub open spec fn spec_as_str(self) -> Seq<char> {
        match self {
            ExportFormat::Iptables => "iptables"@,
            ExportFormat::WindowsFirewall => "windows-firewall"@,
            ExportFormat::PfSense => "pfsense"@,
            ExportFormat::Json => "json"@,
            ExportFormat::Csv => "csv"@,
            ExportFormat::Stix => "stix"@,
            ExportFormat::Taxii => "taxii"@,
        }
    }

    /// The canonical name of the format.
    pub fn as_str(&self) -> (r: &'static str)
        ensures
            r@ == self.spec_as_str(),
    {
        match self {
            ExportFormat::Iptables => "iptables",
            ExportFormat::WindowsFirewall => "windows-firewall",
            ExportFormat::PfSense => "pfsense",
            ExportFormat::Json => "json",
            ExportFormat::Csv => "csv",
            ExportFormat::Stix => "stix",
            ExportFormat::Taxii => "taxii",
        }
    }

    /// The file extension of the format.
    pub open spec fn spec_extension(self) -> Seq<char> {
        match self {
            ExportFormat::Iptables => "sh"@,
            ExportFormat::WindowsFirewall => "ps1"@,
            ExportFormat::PfSense => "txt"@,
            ExportFormat::Json => "json"@,
            ExportFormat::Csv => "csv"@,
            ExportFormat::Stix => "json"@,
            ExportFormat::Taxii => "json"@,
        }
    }

    /// The file extension of the format.
    pub fn extension(&self) -> (r: &'static str)
        ensures
            r@ == self.spec_extension(),
    {
        match self {
            ExportFormat::Iptables => "sh",
            ExportFormat::WindowsFirewall => "ps1",
            ExportFormat::PfSense => "txt",
            ExportFormat::Json => "json",
            ExportFormat::Csv => "csv",
            ExportFormat::Stix => "json",
            ExportFormat::Taxii => "json",
        }
    }
}

/// Every format's canonical name is ASCII and names that format again: `from_str` gives back
/// the format whose `as_str` it is read from.
pub proof fn lemma_format_name_round_trip(f: ExportFormat)
    ensures
        is_ascii_seq(f.spec_as_str()),
        format_named(f.spec_as_str().map_values(|c: char| ascii_lower_char(c))) == Some(f),
{
    let s = f.spec_as_str();
    let low = s.map_values(|c: char| ascii_lower_char(c));
    reveal_strlit("iptables");
    reveal_strlit("iptable");
    reveal_strlit("windows");
    reveal_strlit("win");
    reveal_strlit("windows-firewall");
    reveal_strlit("winfw");
    reveal_strlit("pfsense");
    reveal_strlit("pf");
    reveal_strlit("json");
    reveal_strlit("csv");
    reveal_strlit("stix");
    reveal_strlit("taxii");
    assert(low =~= s);
    match f {
        ExportFormat::Iptables => assert(format_named(low) == Some(ExportFormat::Iptables)),
        ExportFormat::WindowsFirewall => {
            assert(low[0] == 'w' && low.len() == 16);
            assert(format_named(low) == Some(ExportFormat::WindowsFirewall));
        },
        ExportFormat::PfSense => {
            assert(low[0] == 'p' && low.len() == 7);
            assert(format_named(low) == Some(ExportFormat::PfSense));
        },
        ExportFormat::Json => {
            assert(low[0] == 'j' && low.len() == 4);
            assert(format_named(low) == Some(ExportFormat::Json));
        },
        ExportFormat::Csv => {
            assert(low[0] == 'c' && low.len() == 3);
            assert(format_named(low) == Some(ExportFormat::Csv));
        },
        ExportFormat::Stix => {
            assert(low[0] == 's' && low.len() == 4);
            assert(format_named(low) == Some(ExportFormat::Stix));
        },
        ExportFormat::Taxii => {
            assert(low[0] == 't' && low.len() == 5);
            assert(format_named(low) == Some(ExportFormat::Taxii));
        },
    }
}

/// An indicator line of a report with the type an export gives it.
#[derive(Debug)]
pub struct ExportEntry {
    pub value: String,
    pub indicator_type: String,
}

/// An export, ready to be written.
#[derive(Debug)]
pub struct ExportPlan {
    pub output_file: String,
    pub report_display: String,
    pub content: String,
}

/// Why a report could not be exported.
#[derive(Debug)]
pub enum ExportError {
    UnknownReport { name: String },
}

pub struct Exporter;

/// The report a (lowercased) name designates for EXPORT, VALIDATE and FILTER.
pub open spec fn export_alias(name: Seq<char>) -> Option<ReportKind> {
    if name == "payload"@ || name == "payloads"@ || name == "payload-domains"@ {
        Some(ReportKind::Payload)
    } else if name == "amp"@ {
        Some(ReportKind::Amp)
    } else if name == "c2"@ || name == "c2servers"@ || name == "c2-servers"@ {
        Some(ReportKind::C2)
    } else if name == "hex"@ || name == "hashes"@ {
        Some(ReportKind::Hex)
    } else if name == "haus"@ || name == "urlhaus"@ || name == "url-haus"@ {
        Some(ReportKind::Haus)
    } else if name == "phish"@ || name == "phishtank"@ || name == "phish-tank"@ {
        Some(ReportKind::Phish)
    } else if name == "top100"@ || name == "top"@ || name == "top-100"@ {
        Some(ReportKind::Top100)
    } else {
        None
    }
}

/// The report a name designates for EXPORT, VALIDATE and FILTER, compared as given.
pub fn export_alias_kind(name: &str) -> (r: Option<ReportKind>)
    ensures
        r == export_alias(name@),
{
    let n = name;
    if str_eq(n, "payload") || str_eq(n, "payloads") || str_eq(n, "payload-domains") {
        Some(ReportKind::Payload)
    } else if str_eq(n, "amp") {
        Some(ReportKind::Amp)
    } else if str_eq(n, "c2") || str_eq(n, "c2servers") || str_eq(n, "c2-servers") {
        Some(ReportKind::C2)
    } else if str_eq(n, "hex") || str_eq(n, "hashes") {
        Some(ReportKind::Hex)
    } else if str_eq(n, "haus") || str_eq(n, "urlhaus") || str_eq(n, "url-haus") {
        Some(ReportKind::Haus)
    } else if str_eq(n, "phish") || str_eq(n, "phishtank") || str_eq(n, "phish-tank") {
        Some(ReportKind::Phish)
    } else if str_eq(n, "top100") || str_eq(n, "top") || str_eq(n, "top-100") {
        Some(ReportKind::Top100)
    } else {
        None
    }
}

/// The trimmed lines of a report that hold an indicator (not blank, not a `#` comment).
pub open spec fn indicator_lines(lines: Seq<Seq<char>>) -> Seq<Seq<char>>
    decreases lines.len(),
{
    if lines.len() == 0 {
        seq![]
    } else {
        let p = indicator_lines(lines.drop_last());
        let t = trim_spec(lines.last());
        if t.len() == 0 || t[0] == '#' {
            p
        } else {
            p.push(t)
        }
    }
}

/// The iptables rules for one indicator.
pub open spec fn iptables_rule(t: Seq<char>) -> Seq<char> {
    if is_dotted_quad(t) {
        "iptables -A INPUT -s "@ + t + " -j DROP\n"@ + "iptables -A OUTPUT -d "@ + t
            + " -j DROP\n"@
    } else {
        "# Domain: "@ + t + " (requires DNS filtering)\n"@
    }
}

/// The iptables rules for indicators, in order.
pub open spec fn iptables_body(ts: Seq<Seq<char>>) -> Seq<char>
    decreases ts.len(),
{
    if ts.len() == 0 {
        seq![]
    } else {
        iptables_body(ts.drop_last()) + iptables_rule(ts.last())
    }
}

/// The iptables script for a report.
pub open spec fn iptables_script(name: Seq<char>, lines: Seq<Seq<char>>) -> Seq<char> {
    "#!/bin/bash\n# iptables rules generated from "@ + name
        + " report\n# Generated by malScraper\n#\n# Flush existing rules\niptables -F\niptables -X\n#\n# Block malicious domains/IPs\n\n"@
        + iptables_body(indicator_lines(lines))
        + "\n# Save rules\niptables-save > /etc/iptables/rules.v4\n"@
}

/// The Windows Firewall rule for the `num`-th indicator.
pub open spec fn windows_rule(t: Seq<char>, num: nat, name: Seq<char>) -> Seq<char> {
    if is_dotted_quad(t) {
        "New-NetFirewallRule -DisplayName \"Block IP "@ + decimal(num) + " - "@ + t
            + "\" -Direction Outbound -RemoteAddress "@ + t
            + " -Action Block -Group $RuleGroup -Description \"Blocked by malScraper from "@ + name
            + " report\"\n"@
    } else {
        "# Domain: "@ + t
            + " (Windows Firewall cannot directly block domains - consider using hosts file or DNS filtering)\n"@
    }
}

/// The Windows Firewall rules for indicators, numbered from 1.
pub open spec fn windows_body(ts: Seq<Seq<char>>, name: Seq<char>) -> Seq<char>
    decreases ts.len(),
{
    if ts.len() == 0 {
        seq![]
    } else {
        windows_body(ts.drop_last(), name) + windows_rule(ts.last(), ts.len(), name)
    }
}

/// The Windows Firewall script for a report.
pub open spec fn windows_script(name: Seq<char>, lines: Seq<Seq<char>>) -> Seq<char> {
    "# Windows Firewall rules generated from "@ + name
        + " report\n# Generated by malScraper\n# Run this script as Administrator\n\n$ErrorActionPreference = 'Stop'\n\n# Create firewall rule group\n$RuleGroup = 'malScraper Blocked Indicators'\n\n# Block malicious domains/IPs\n\n"@
        + windows_body(indicator_lines(lines), name)
}

/// The pfSense alias file for a report: one alias holding all indicators.
pub open spec fn pfsense_aliases(name: Seq<char>, lines: Seq<Seq<char>>) -> Seq<char> {
    "# pfSense alias rules generated from "@ + name
        + " report\n# Generated by malScraper\n# Import these aliases in pfSense: Firewall > Aliases\n\n# Format: Name,Type,Content\n\n"@
        + "malScraper_"@ + lowercase(replace_spec(name, " "@, "_"@)) + ",url,"@ + join_space(
        indicator_lines(lines),
    ) + "\n"@
}

/// The CSV row of one indicator.
pub open spec fn csv_row(t: Seq<char>, name: Seq<char>, timestamp: nat) -> Seq<char> {
    t + ","@ + export_kind(t, "file-hash"@) + ","@ + name + ","@ + decimal(timestamp) + "\n"@
}

/// The CSV rows of indicators.
pub open spec fn csv_body(ts: Seq<Seq<char>>, name: Seq<char>, timestamp: nat) -> Seq<char>
    decreases ts.len(),
{
    if ts.len() == 0 {
        seq![]
    } else {
        csv_body(ts.drop_last(), name, timestamp) + csv_row(ts.last(), name, timestamp)
    }
}

/// The CSV file for a report, with the export date in its header and a timestamp in each row.
pub open spec fn csv_file(
    name: Seq<char>,
    lines: Seq<Seq<char>>,
    export_date: nat,
    timestamp: nat,
) -> Seq<char> {
    "# CSV export generated by malScraper\n# Report: "@ + name + "\n# Export Date: "@ + decimal(
        export_date,
    ) + "\n#\nIndicator,Type,Source,Timestamp\n"@ + csv_body(indicator_lines(lines), name, timestamp)
}

/// The entries of a JSON or STIX export: each indicator with its type.
pub open spec fn entries_match(entries: Seq<ExportEntry>, lines: Seq<Seq<char>>) -> bool {
    let ts = indicator_lines(lines);
    &&& entries.len() == ts.len()
    &&& forall|i: int|
        0 <= i < ts.len() ==> (#[trigger] entries[i]).value@ == ts[i]
            && entries[i].indicator_type@ == export_kind(ts[i], "file"@)
}

/// The default output file of an export: the report name with spaces as underscores, in
/// lowercase, then the format name and its extension.
pub open spec fn default_output_file(report_name: Seq<char>, format: ExportFormat) -> Seq<char> {
    lowercase(replace_spec(report_name, " "@, "_"@)) + "_"@ + format.spec_as_str() + "."@
        + format.spec_extension()
}

/// The trimmed line, when it holds an indicator.
fn indicator_of(line: &str) -> (r: Option<&str>)
    ensures
        ({
            let t = trim_spec(line@);
            if t.len() == 0 || t[0] == '#' {
                r is None
            } else {
                r matches Some(x) && x@ == t
            }
        }),
{
    let t = trim(line);
    if t.unicode_len() == 0 || t.get_char(0) == '#' {
        None
    } else {
        Some(t)
    }
}

proof fn lemma_indicator_lines_step(lines: Seq<Seq<char>>, i: int)
    requires
        0 <= i < lines.len(),
    ensures
        ({
            let t = trim_spec(lines[i]);
            indicator_lines(lines.take(i + 1)) == if t.len() == 0 || t[0] == '#' {
                indicator_lines(lines.take(i))
            } else {
                indicator_lines(lines.take(i)).push(t)
            }
        }),
{
    assert(lines.take(i + 1).drop_last() =~= lines.take(i));
    assert(lines.take(i + 1).last() == lines[i]);
}

/// Appends the Windows Firewall rule for the `num`-th indicator.
fn append_windows_rule(out: &mut String, t: &str, num: u64, name: &str)
    ensures
        final(out)@ == old(out)@ + windows_rule(t@, num as nat, name@),
{
    if dotted_quad(t) {
        let digits = u64_to_decimal(num);
        out.append("New-NetFirewallRule -DisplayName \"Block IP ");
        out.append(digits.as_str());
        out.append(" - ");
        out.append(t);
        out.append("\" -Direction Outbound -RemoteAddress ");
        out.append(t);
        out.append(" -Action Block -Group $RuleGroup -Description \"Blocked by malScraper from ");
        out.append(name);
        out.append(" report\"\n");
    } else {
        out.append("# Domain: ");
        out.append(t);
        out.append(
            " (Windows Firewall cannot directly block domains - consider using hosts file or DNS filtering)\n",
        );
    }
}

impl Exporter {
    /// The location of the report a name designates (case-insensitively), if any.
    pub fn get_report_path<'a>(paths: &'a Paths, report_name: &str) -> (r: Option<&'a String>)
        ensures
            match export_alias(lowercase(report_name@)) {
                Some(k) => r == Some(&paths.spec_report_path(k)),
                None => r is None,
            },
    {
        let lower = to_lowercase(report_name);
        match export_alias_kind(lower.as_str()) {
            Some(k) => Some(paths.report_path(k)),
            None => None,
        }
    }

    /// The display name of the report a name designates; an unknown name is shown as given.
    pub fn get_report_display_name(report_name: &str) -> (r: String)
        ensures
            r@ == match export_alias(lowercase(report_name@)) {
                Some(k) => k.spec_display_name(),
                None => report_name@,
            },
    {
        let lower = to_lowercase(report_name);
        match export_alias_kind(lower.as_str()) {
            Some(k) => k.display_name().to_owned(),
            None => report_name.to_owned(),
        }
    }

    /// The default output file of an export.
    pub fn default_output_file(report_name: &str, format: ExportFormat) -> (r: String)
        ensures
            r@ == default_output_file(report_name@, format),
    {
        proof {
            reveal_strlit(" ");
        }
        let underscored = replace_all(report_name, " ", "_");
        let mut r = to_lowercase(underscored.as_str());
        r.append("_");
        r.append(format.as_str());
        r.append(".");
        r.append(format.extension());
        r
    }

    /// The iptables script for a report.
    pub fn export_iptables(lines: &Vec<String>, report_name: &str) -> (r: String)
        ensures
            r@ == iptables_script(report_name@, string_views(lines@)),
    {
        let ghost ls = string_views(lines@);
        let mut out = String::new();
        out.append("#!/bin/bash\n# iptables rules generated from ");
        out.append(report_name);
        out.append(
            " report\n# Generated by malScraper\n#\n# Flush existing rules\niptables -F\niptables -X\n#\n# Block malicious domains/IPs\n\n",
        );
        let ghost head = out@;
        let mut i: usize = 0;
        assert(ls.take(0) =~= Seq::<Seq<char>>::empty());
        assert(out@ =~= head + iptables_body(indicator_lines(ls.take(0))));
        while i < lines.len()
            invariant
                i <= lines@.len(),
                ls == string_views(lines@),
                out@ == head + iptables_body(indicator_lines(ls.take(i as int))),
            decreases lines@.len() - i,
        {
            proof {
                lemma_indicator_lines_step(ls, i as int);
            }
            let ghost prev = indicator_lines(ls.take(i as int));
            match indicator_of(lines[i].as_str()) {
                Some(t) => {
                    assert(prev.push(t@).drop_last() =~= prev);
                    if dotted_quad(t) {
                        out.append("iptables -A INPUT -s ");
                        out.append(t);
                        out.append(" -j DROP\n");
                        out.append("iptables -A OUTPUT -d ");
                        out.append(t);
                        out.append(" -j DROP\n");
                    } else {
                        out.append("# Domain: ");
                        out.append(t);
                        out.append(" (requires DNS filtering)\n");
                    }
                    assert(out@ =~= head + iptables_body(prev.push(t@)));
                },
                None => {},
            }
            i += 1;
        }
        assert(ls.take(lines@.len() as int) =~= ls);
        out.append("\n# Save rules\niptables-save > /etc/iptables/rules.v4\n");
        out
    }

    /// The Windows Firewall script for a report.
    pub fn export_windows_firewall(lines: &Vec<String>, report_name: &str) -> (r: String)
        ensures
            r@ == windows_script(report_name@, string_views(lines@)),
    {
        let ghost ls = string_views(lines@);
        let mut out = String::new();
        out.append("# Windows Firewall rules generated from ");
        out.append(report_name);
        out.append(
            " report\n# Generated by malScraper\n# Run this script as Administrator\n\n$ErrorActionPreference = 'Stop'\n\n# Create firewall rule group\n$RuleGroup = 'malScraper Blocked Indicators'\n\n# Block malicious domains/IPs\n\n",
        );
        let ghost head = out@;
        let mut count: usize = 0;
        let mut i: usize = 0;
        assert(ls.take(0) =~= Seq::<Seq<char>>::empty());
        assert(out@ =~= head + windows_body(indicator_lines(ls.take(0)), report_name@));
        while i < lines.len()
            invariant
                i <= lines@.len(),
                ls == string_views(lines@),
                out@ == head + windows_body(indicator_lines(ls.take(i as int)), report_name@),
                count == indicator_lines(ls.take(i as int)).len(),
                count <= i,
            decreases lines@.len() - i,
        {
            proof {
                lemma_indicator_lines_step(ls, i as int);
            }
            let ghost prev = indicator_lines(ls.take(i as int));
            match indicator_of(lines[i].as_str()) {
                Some(t) => {
                    assert(prev.push(t@).drop_last() =~= prev);
                    append_windows_rule(&mut out, t, (count + 1) as u64, report_name);
                    assert(out@ =~= head + windows_body(prev.push(t@), report_name@));
                    count = count + 1;
                },
                None => {},
            }
            i += 1;
        }
        assert(ls.take(lines@.len() as int) =~= ls);
        out
    }

    /// The pfSense alias file for a report.
    pub fn export_pfsense(lines: &Vec<String>, report_name: &str) -> (r: String)
        ensures
            r@ == pfsense_aliases(report_name@, string_views(lines@)),
    {
        let ghost ls = string_views(lines@);
        let mut entries: Vec<&str> = Vec::new();
        let mut i: usize = 0;
        assert(ls.take(0) =~= Seq::<Seq<char>>::empty());
        while i < lines.len()
            invariant
                i <= lines@.len(),
                ls == string_views(lines@),
                crate::text::views(entries@) == indicator_lines(ls.take(i as int)),
            decreases lines@.len() - i,
        {
            proof {
                lemma_indicator_lines_step(ls, i as int);
            }
            match indicator_of(lines[i].as_str()) {
                Some(t) => {
                    let ghost before = entries@;
                    entries.push(t);
                    assert(crate::text::views(entries@) =~= crate::text::views(before).push(t@));
                },
                None => {},
            }
            i += 1;
        }
        assert(ls.take(lines@.len() as int) =~= ls);
        proof {
            reveal_strlit(" ");
        }
        let mut out = String::new();
        out.append("# pfSense alias rules generated from ");
        out.append(report_name);
        out.append(
            " report\n# Generated by malScraper\n# Import these aliases in pfSense: Firewall > Aliases\n\n# Format: Name,Type,Content\n\n",
        );
        out.append("malScraper_");
        let underscored = replace_all(report_name, " ", "_");
        let lowered = to_lowercase(underscored.as_str());
        out.append(lowered.as_str());
        out.append(",url,");
        let joined = crate::text::join_words(&entries, 0);
        assert(crate::text::views(entries@).skip(0) =~= crate::text::views(entries@));
        out.append(joined.as_str());
        out.append("\n");
        out
    }

    /// The CSV file for a report.
    pub fn export_csv(lines: &Vec<String>, report_name: &str, export_date: u64, timestamp: u64) -> (r:
        String)
        ensures
            r@ == csv_file(report_name@, string_views(lines@), export_date as nat, timestamp as nat),
    {
        let ghost ls = string_views(lines@);
        let mut out = String::new();
        out.append("# CSV export generated by malScraper\n# Report: ");
        out.append(report_name);
        out.append("\n# Export Date: ");
        let date = u64_to_decimal(export_date);
        out.append(date.as_str());
        out.append("\n#\nIndicator,Type,Source,Timestamp\n");
        let ts = u64_to_decimal(timestamp);
        let ghost head = out@;
        let mut i: usize = 0;
        assert(ls.take(0) =~= Seq::<Seq<char>>::empty());
        assert(out@ =~= head + csv_body(indicator_lines(ls.take(0)), report_name@, timestamp as nat));
        while i < lines.len()
            invariant
                i <= lines@.len(),
                ls == string_views(lines@),
                ts@ == decimal(timestamp as nat),
                out@ == head + csv_body(
                    indicator_lines(ls.take(i as int)),
                    report_name@,
                    timestamp as nat,
                ),
            decreases lines@.len() - i,
        {
            proof {
                lemma_indicator_lines_step(ls, i as int);
            }
            let ghost prev = indicator_lines(ls.take(i as int));
            match indicator_of(lines[i].as_str()) {
                Some(t) => {
                    assert(prev.push(t@).drop_last() =~= prev);
                    let kind = export_indicator_type(t, "file-hash");
                    out.append(t);
                    out.append(",");
                    out.append(kind);
                    out.append(",");
                    out.append(report_name);
                    out.append(",");
                    out.append(ts.as_str());
                    out.append("\n");
                    assert(out@ =~= head + csv_body(prev.push(t@), report_name@, timestamp as nat));
                },
                None => {},
            }
            i += 1;
        }
        assert(ls.take(lines@.len() as int) =~= ls);
        out
    }

    /// The indicators of a report with the types a JSON or STIX export gives them.
    pub fn export_entries(lines: &Vec<String>) -> (r: Vec<ExportEntry>)
        ensures
            entries_match(r@, string_views(lines@)),
    {
        let ghost ls = string_views(lines@);
        let mut out: Vec<ExportEntry> = Vec::new();
        let mut i: usize = 0;
        assert(ls.take(0) =~= Seq::<Seq<char>>::empty());
        while i < lines.len()
            invariant
                i <= lines@.len(),
                ls == string_views(lines@),
                entries_match(out@, ls.take(i as int)),
            decreases lines@.len() - i,
        {
            proof {
                lemma_indicator_lines_step(ls, i as int);
            }
            let ghost prev = indicator_lines(ls.take(i as int));
            match indicator_of(lines[i].as_str()) {
                Some(t) => {
                    let kind = export_indicator_type(t, "file");
                    out.push(ExportEntry { value: t.to_owned(), indicator_type: kind.to_owned() });
                    assert(prev.push(t@)[prev.len() as int] == t@);
                },
                None => {},
            }
            i += 1;
        }
        assert(ls.take(lines@.len() as int) =~= ls);
        out
    }

    /// The STIX pattern of an entry: `[<type>:value = '<value>']`.
    pub fn stix_pattern(entry: &ExportEntry) -> (r: String)
        ensures
            r@ == "["@ + entry.indicator_type@ + ":value = '"@ + entry.value@ + "']"@,
    {
        let mut r = String::new();
        r.append("[");
        r.append(entry.indicator_type.as_str());
        r.append(":value = '");
        r.append(entry.value.as_str());
        r.append("']");
        r
    }

    /// The description of each STIX indicator of a report: `Indicator from <report> report`.
    pub fn stix_description(report_name: &str) -> (r: String)
        ensures
            r@ == "Indicator from "@ + report_name@ + " report"@,
    {
        let mut r = String::new();
        r.append("Indicator from ");
        r.append(report_name);
        r.append(" report");
        r
    }

    /// The entries of a STIX export; a TAXII export is the same STIX bundle.
    pub fn export_taxii(lines: &Vec<String>) -> (r: Vec<ExportEntry>)
        ensures
            entries_match(r@, string_views(lines@)),
    {
        Exporter::export_entries(lines)
    }

    /// Prepares the export of a report's lines: the output file (the one given, or the default),
    /// the report's display name, and the text of the file in the chosen format. CSV rows carry
    /// `timestamp` and the CSV header `export_date`; the JSON document records `report_path` and
    /// `export_date`; a STIX (or TAXII) bundle is created at `created`, identified by
    /// `bundle_id`, its objects by `object_ids` in order.
    pub fn export(
        format: ExportFormat,
        report_name: &str,
        output_path: Option<&str>,
        lines: &Vec<String>,
        report_path: &str,
        export_date: u64,
        timestamp: u64,
        created: &str,
        bundle_id: &str,
        object_ids: &Vec<String>,
    ) -> (r: Result<ExportPlan, ExportError>)
        requires
            format is Stix || format is Taxii ==> object_ids@.len() >= lines@.len(),
        ensures
            export_alias(lowercase(report_name@)) is None ==> (r matches Err(
                ExportError::UnknownReport { name },
            ) && name@ == report_name@),
            export_alias(lowercase(report_name@)) matches Some(k) ==> (r matches Ok(plan) && {
                let ls = string_views(lines@);
                let shown = k.spec_display_name();
                &&& plan.output_file@ == match output_path {
                    Some(p) => p@,
                    None => default_output_file(report_name@, format),
                }
                &&& plan.report_display@ == shown
                &&& plan.content@ == match format {
                    ExportFormat::Iptables => iptables_script(shown, ls),
                    ExportFormat::WindowsFirewall => windows_script(shown, ls),
                    ExportFormat::PfSense => pfsense_aliases(shown, ls),
                    ExportFormat::Csv => csv_file(shown, ls, export_date as nat, timestamp as nat),
                    ExportFormat::Json => json_export_text(
                        shown,
                        report_path@,
                        CURRENT_VERSION@,
                        export_date as nat,
                        report_pairs(ls),
                    ),
                    ExportFormat::Stix | ExportFormat::Taxii => stix_bundle_text(
                        shown,
                        created@,
                        bundle_id@,
                        string_views(object_ids@),
                        report_pairs(ls),
                    ),
                }
            }),
    {
        let lower = to_lowercase(report_name);
        let kind = match export_alias_kind(lower.as_str()) {
            Some(k) => k,
            None => {
                return Err(ExportError::UnknownReport { name: report_name.to_owned() });
            },
        };
        let shown = kind.display_name();
        let output_file = match output_path {
            Some(p) => p.to_owned(),
            None => Exporter::default_output_file(report_name, format),
        };
        let content = match format {
            ExportFormat::Iptables => Exporter::export_iptables(lines, shown),
            ExportFormat::WindowsFirewall => Exporter::export_windows_firewall(lines, shown),
            ExportFormat::PfSense => Exporter::export_pfsense(lines, shown),
            ExportFormat::Csv => Exporter::export_csv(lines, shown, export_date, timestamp),
            ExportFormat::Json => {
                let entries = Exporter::export_entries(lines);
                proof {
                    lemma_entry_pairs(entries@, string_views(lines@));
                }
                json_export_document(&entries, shown, report_path, CURRENT_VERSION, export_date)
            },
            ExportFormat::Stix | ExportFormat::Taxii => {
                let entries = match format {
                    ExportFormat::Taxii => Exporter::export_taxii(lines),
                    _ => Exporter::export_entries(lines),
                };
                proof {
                    lemma_entry_pairs(entries@, string_views(lines@));
                    lemma_indicator_lines_len(string_views(lines@));
                }
                stix_bundle_document(&entries, shown, created, bundle_id, object_ids)
            },
        };
        Ok(ExportPlan { output_file, report_display: shown.to_owned(), content })
    }
}

/// A report has no more indicator lines than lines.
proof fn lemma_indicator_lines_len(lines: Seq<Seq<char>>)
    ensures
        indicator_lines(lines).len() <= lines.len(),
    decreases lines.len(),
{
    if lines.len() > 0 {
        lemma_indicator_lines_len(lines.drop_last());
    }
}

/// Entries that match a report's lines are the report's (value, type) pairs.
proof fn lemma_entry_pairs(entries: Seq<ExportEntry>, lines: Seq<Seq<char>>)
    requires
        entries_match(entries, lines),
    ensures
        entry_pairs(entries) == report_pairs(lines),
{
    assert(entry_pairs(entries) =~= report_pairs(lines));
}


/// A blank or comment line (its trimmed text empty or starting with `#`) adds nothing to an
/// export; any other line adds itself, trimmed.
pub proof fn lemma_export_lines(lines: Seq<Seq<char>>, line: Seq<char>)
    ensures
        trim_spec(line).len() == 0 || trim_spec(line)[0] == '#' ==> indicator_lines(lines.push(line))
            == indicator_lines(lines),
        !(trim_spec(line).len() == 0 || trim_spec(line)[0] == '#') ==> indicator_lines(
            lines.push(line),
        ) == indicator_lines(lines).push(trim_spec(line)),
{
    assert(lines.push(line).drop_last() =~= lines);
}

} // verus!
