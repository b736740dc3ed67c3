use malscraper::compare::{Compare, CompareError};
use malscraper::config::{open_choice, OpenChoice, Paths, PayloadOption, ReportKind};
use malscraper::export::{ExportEntry, ExportError, ExportFormat, Exporter};
use malscraper::export_docs::{json_export_document, stix_bundle_document};
use malscraper::file_ops::{
    amp_domains, calculate_checksum, handle_payload_report, top_domains, verify_checksum,
};
use malscraper::indicators::{detect_indicator_type, dotted_quad, validate_domain_format};
use malscraper::printer::Printer;

fn lines(v: &[&str]) -> Vec<String> {
    v.iter().map(|s| s.to_string()).collect()
}

#[test]
fn export_format_names_round_trip() {
    let all = [
        ExportFormat::Iptables,
        ExportFormat::WindowsFirewall,
        ExportFormat::PfSense,
        ExportFormat::Json,
        ExportFormat::Csv,
        ExportFormat::Stix,
        ExportFormat::Taxii,
    ];
    for f in all {
        assert_eq!(ExportFormat::from_str(f.as_str()), Some(f));
    }
    assert_eq!(ExportFormat::from_str("WinFW"), Some(ExportFormat::WindowsFirewall));
    assert_eq!(ExportFormat::from_str("PF"), Some(ExportFormat::PfSense));
    assert_eq!(ExportFormat::from_str("xml"), None);
    assert_eq!(ExportFormat::Stix.extension(), "json");
    assert_eq!(ExportFormat::WindowsFirewall.extension(), "ps1");
}

#[test]
fn iptables_script_has_a_rule_per_indicator() {
    let ls = lines(&["# header", "1.2.3.4", "  evil.com  ", "", "300.1.1.1"]);
    let out = Exporter::export_iptables(&ls, "Payload Domains");
    let expected = "#!/bin/bash\n# iptables rules generated from Payload Domains report\n# Generated by malScraper\n#\n# Flush existing rules\niptables -F\niptables -X\n#\n# Block malicious domains/IPs\n\n\
iptables -A INPUT -s 1.2.3.4 -j DROP\niptables -A OUTPUT -d 1.2.3.4 -j DROP\n\
# Domain: evil.com (requires DNS filtering)\n\
# Domain: 300.1.1.1 (requires DNS filtering)\n\
\n# Save rules\niptables-save > /etc/iptables/rules.v4\n";
    assert_eq!(out, expected);
}

#[test]
fn windows_rules_are_numbered_over_all_indicators() {
    let ls = lines(&["evil.com", "10.0.0.1"]);
    let out = Exporter::export_windows_firewall(&ls, "C2 Servers");
    assert!(out.ends_with(
        "# Domain: evil.com (Windows Firewall cannot directly block domains - consider using hosts file or DNS filtering)\n\
New-NetFirewallRule -DisplayName \"Block IP 2 - 10.0.0.1\" -Direction Outbound -RemoteAddress 10.0.0.1 -Action Block -Group $RuleGroup -Description \"Blocked by malScraper from C2 Servers report\"\n"
    ));
    assert!(out.starts_with("# Windows Firewall rules generated from C2 Servers report\n"));
}

#[test]
fn pfsense_alias_joins_indicators() {
    let ls = lines(&["a.com", "# skip", "1.1.1.1"]);
    let out = Exporter::export_pfsense(&ls, "Top 100");
    assert!(out.ends_with("malScraper_top_100,url,a.com 1.1.1.1\n"));
}

#[test]
fn csv_rows_carry_types_and_timestamps() {
    let ls = lines(&["http://x/y", "d41d8cd98f00b204e9800998ecf8427e", "8.8.8.8", "site.org"]);
    let out = Exporter::export_csv(&ls, "AMP Report", 17, 42);
    let expected = "# CSV export generated by malScraper\n# Report: AMP Report\n# Export Date: 17\n#\nIndicator,Type,Source,Timestamp\n\
http://x/y,url,AMP Report,42\n\
d41d8cd98f00b204e9800998ecf8427e,file-hash,AMP Report,42\n\
8.8.8.8,ipv4-addr,AMP Report,42\n\
site.org,domain-name,AMP Report,42\n";
    assert_eq!(out, expected);
}

#[test]
fn export_plan_resolves_names_and_output() {
    let ls = lines(&["1.2.3.4"]);
    let none: Vec<String> = Vec::new();
    let plan = Exporter::export(ExportFormat::Json, "Payloads", None, &ls, "/r/p.txt", 1, 2, "", "", &none).unwrap();
    assert_eq!(plan.output_file, "payloads_json.json");
    assert_eq!(plan.report_display, "Payload Domains");
    let expected = "{\n  \"export_info\": {\n    \"export_date\": 1,\n    \"report_name\": \"Payload Domains\",\n    \"report_path\": \"/r/p.txt\",\n    \"tool\": \"malScraper\",\n    \"total_indicators\": 1,\n    \"version\": \"2.0.7\"\n  },\n  \"indicators\": [\n    {\n      \"source\": \"Payload Domains\",\n      \"type\": \"ipv4-addr\",\n      \"value\": \"1.2.3.4\"\n    }\n  ]\n}";
    assert_eq!(plan.content, expected);
    let plan = Exporter::export(ExportFormat::Taxii, "url haus", Some("x.json"), &ls, "p", 1, 2, "t", "b", &lines(&["i"]));
    match plan {
        Err(ExportError::UnknownReport { name }) => assert_eq!(name, "url haus"),
        _ => panic!("expected an unknown report"),
    }
    assert_eq!(Exporter::default_output_file("My Report", ExportFormat::Iptables), "my_report_iptables.sh");
    assert_eq!(Exporter::get_report_display_name("whatever"), "whatever");
    assert_eq!(Exporter::get_report_display_name("URL-HAUS"), "URLHaus Malware Downloads");
}

#[test]
fn report_paths_by_alias() {
    let p = Paths::new("/base".to_string());
    assert_eq!(p.payload_report, "/base/PayloadReport.txt");
    assert_eq!(p.phish_tank, "/base/Phishing/PhishTank.csv");
    assert_eq!(Exporter::get_report_path(&p, "TOP-100"), Some(&p.top_100));
    assert_eq!(Compare::get_report_path(&p, "hausmaldown"), Some(&p.haus_mal_down));
    assert_eq!(Compare::get_report_path(&p, "urlhaus"), None);
    assert!(ReportKind::Hex.is_csv());
    assert!(!ReportKind::Top100.is_csv());
}

#[test]
fn comparison_counts_common_and_exclusive() {
    let a = lines(&["a.com", "b.com", "a.com", "# c"]);
    let b = lines(&["b.com", "c.com"]);
    let r = Compare::compare_reports("amp", "C2", &a, &b).unwrap();
    assert_eq!(r.report1_total, 2);
    assert_eq!(r.report2_total, 2);
    assert_eq!(r.common, 1);
    assert_eq!(r.only_in_report1, vec!["a.com".to_string()]);
    assert_eq!(r.only_in_report2, vec!["c.com".to_string()]);
    match Compare::compare_reports("amp", "nope", &a, &b) {
        Err(CompareError::UnknownReport { name }) => assert_eq!(name, "nope"),
        _ => panic!("expected an unknown report"),
    }
}

#[test]
fn csv_comparison_picks_address_fields() {
    let a = lines(&["1,http://x.org/a,online", "2,10.0.0.1,x", "3,plain,x"]);
    let set = Compare::read_indicators(&a, true);
    assert_eq!(
        set.items().clone(),
        vec!["http://x.org/a".to_string(), "10.0.0.1".to_string(), "3".to_string()]
    );
}

#[test]
fn indicator_classification() {
    assert!(dotted_quad("192.168.0.255"));
    assert!(!dotted_quad("192.168.0.256"));
    assert!(!dotted_quad("1.2.3"));
    assert!(validate_domain_format("sub.example-site.org"));
    assert!(!validate_domain_format("localhost"));
    assert!(!validate_domain_format("bad..com"));
    assert_eq!(detect_indicator_type("https://a.b"), "url");
    assert_eq!(detect_indicator_type("1.2.3.4"), "ip");
}

#[test]
fn payload_storage_and_derived_reports() {
    let (n, stored) = handle_payload_report("http://a/x\nhttps://b\n".to_string(), PayloadOption::Both);
    assert_eq!(n, 2);
    assert_eq!(stored, "hxxp://a/x\nhxxps://b\n");
    let (n, stored) = handle_payload_report("one\r\ntwo".to_string(), PayloadOption::Zip);
    assert_eq!(n, 2);
    assert_eq!(stored, "one\r\ntwo");
    let (n, _) = handle_payload_report(String::new(), PayloadOption::LeaveAsIs);
    assert_eq!(n, 0);
    let ls = lines(&[
        "http://www.evil.com/payload.exe",
        "https://secure.example/path",
        "x http://www.a.www.b/c http://second/",
    ]);
    assert_eq!(amp_domains(&ls), vec!["evil.com".to_string(), "a.b".to_string()]);
    let many: Vec<String> = (0..150).map(|i| format!("line{}", i)).collect();
    let top = top_domains(&many);
    assert_eq!(top.len(), 100);
    assert_eq!(top[99], "line99");
    assert_eq!(top_domains(&lines(&["a"])), vec!["a".to_string()]);
}

#[test]
fn checksums() {
    let empty: Vec<u8> = Vec::new();
    let sum = calculate_checksum(&empty);
    assert_eq!(sum, "e3b0c44298fc1c149afbf4c8996fb92427ae41e4649b934ca495991b7852b855");
    assert!(verify_checksum(true, &empty, Some("  E3B0C44298FC1C149AFBF4C8996FB92427AE41E4649B934CA495991B7852B855 ")));
    assert!(!verify_checksum(true, &empty, Some("00")));
    assert!(verify_checksum(true, &empty, None));
    assert!(!verify_checksum(false, &empty, None));
}

#[test]
fn menu_choices() {
    assert_eq!(open_choice("3"), OpenChoice::Report(ReportKind::C2));
    assert_eq!(open_choice("7"), OpenChoice::Report(ReportKind::Top100));
    assert_eq!(open_choice("HoMe"), OpenChoice::Home);
    assert_eq!(open_choice("8"), OpenChoice::Invalid);
    assert_eq!(PayloadOption::from_choice("2"), Some(PayloadOption::Obfuscate));
    assert_eq!(PayloadOption::from_choice(" 2"), None);
}

#[test]
fn bullet_and_header() {
    let b = Printer::bullet();
    assert!(b == "[*]" || b == "\u{1b}[1m[*]\u{1b}[0m");
    assert_eq!(
        Printer::header_parts("SEARCH RESULTS :: \"x\" ", " :: "),
        Some(("SEARCH RESULTS".to_string(), "\"x\"".to_string()))
    );
    assert_eq!(Printer::header_parts("PLAIN", " :: "), None);
}

#[test]
fn comparison_swapped_swaps_fields() {
    let a = lines(&["a.com", "b.com", "d.com", "a.com"]);
    let b = lines(&["d.com", "c.com", "b.com", "e.com"]);
    let r = Compare::compare_reports("amp", "c2", &a, &b).unwrap();
    let s = Compare::compare_reports("c2", "amp", &b, &a).unwrap();
    assert_eq!((r.report1_total, r.report2_total, r.common), (3, 4, 2));
    assert_eq!((s.report1_total, s.report2_total, s.common), (4, 3, 2));
    assert_eq!(r.only_in_report1, s.only_in_report2);
    assert_eq!(r.only_in_report2, s.only_in_report1);
    assert_eq!(r.only_in_report2, vec!["c.com".to_string(), "e.com".to_string()]);
}

#[test]
fn stix_pattern_and_description() {
    let e = ExportEntry { value: "1.2.3.4".to_string(), indicator_type: "ipv4-addr".to_string() };
    assert_eq!(Exporter::stix_pattern(&e), "[ipv4-addr:value = '1.2.3.4']");
    assert_eq!(Exporter::stix_description("C2 Servers"), "Indicator from C2 Servers report");
}

fn obj(pairs: Vec<(&str, serde_json::Value)>) -> serde_json::Value {
    let mut m = serde_json::Map::new();
    for (k, v) in pairs {
        m.insert(k.to_string(), v);
    }
    serde_json::Value::Object(m)
}

fn text(s: &str) -> serde_json::Value {
    serde_json::Value::String(s.to_string())
}

fn entry(v: &str, t: &str) -> ExportEntry {
    ExportEntry { value: v.to_string(), indicator_type: t.to_string() }
}

#[test]
fn json_document_matches_serde_pretty_printer() {
    let entries = vec![entry("a\"b\\c\td\u{1}", "url"), entry("x.org", "domain-name")];
    let doc = json_export_document(&entries, "C2 \"Servers\"", "C:\\r\\c2.txt", "2.0.7", 1700000000);
    let indicators: Vec<serde_json::Value> = entries
        .iter()
        .map(|e| obj(vec![("value", text(&e.value)), ("type", text(&e.indicator_type)), ("source", text("C2 \"Servers\""))]))
        .collect();
    let info = obj(vec![
        ("tool", text("malScraper")),
        ("version", text("2.0.7")),
        ("export_date", serde_json::Value::from(1700000000u64)),
        ("report_name", text("C2 \"Servers\"")),
        ("report_path", text("C:\\r\\c2.txt")),
        ("total_indicators", serde_json::Value::from(2u64)),
    ]);
    let value = obj(vec![("export_info", info), ("indicators", serde_json::Value::Array(indicators))]);
    assert_eq!(doc, serde_json::to_string_pretty(&value).unwrap());
    let empty = json_export_document(&Vec::new(), "R", "p", "v", 0);
    assert!(empty.contains("\"indicators\": []"));
    assert!(empty.contains("\"total_indicators\": 0,"));
}

#[test]
fn stix_document_matches_serde_pretty_printer() {
    let entries = vec![entry("1.2.3.4", "ipv4-addr"), entry("http://e.x/'q", "url")];
    let ids = lines(&["id-one", "id-two", "spare"]);
    let created = "2023-11-14T22:13:20.000Z";
    let doc = stix_bundle_document(&entries, "AMP Report", created, "b-1", &ids);
    let objects: Vec<serde_json::Value> = entries
        .iter()
        .zip(ids.iter())
        .map(|(e, id)| {
            obj(vec![
                ("type", text("indicator")),
                ("spec_version", text("2.1")),
                ("id", text(&format!("indicator--{}", id))),
                ("created", text(created)),
                ("modified", text(created)),
                ("pattern", text(&format!("[{}:value = '{}']", e.indicator_type, e.value))),
                ("pattern_type", text("stix")),
                ("valid_from", text(created)),
                ("labels", serde_json::Value::Array(vec![text("malicious-activity")])),
                ("description", text("Indicator from AMP Report report")),
            ])
        })
        .collect();
    let bundle = obj(vec![
        ("type", text("bundle")),
        ("id", text("bundle--b-1")),
        ("spec_version", text("2.1")),
        ("objects", serde_json::Value::Array(objects)),
    ]);
    assert_eq!(doc, serde_json::to_string_pretty(&bundle).unwrap());
    let empty = stix_bundle_document(&Vec::new(), "R", created, "b", &Vec::new());
    assert!(empty.contains("\"objects\": [],"));
}

#[test]
fn stix_time_and_ids() {
    assert_eq!(Exporter::stix_time(0), Some("1970-01-01T00:00:00.000Z".to_string()));
    assert_eq!(Exporter::stix_time(1700000000), Some("2023-11-14T22:13:20.000Z".to_string()));
    let (b, ids) = Exporter::new_stix_ids(3);
    assert_eq!(ids.len(), 3);
    for id in ids.iter().chain(std::iter::once(&b)) {
        assert_eq!(id.len(), 36);
        assert_eq!(&id[14..15], "4");
        assert_eq!(id.matches('-').count(), 4);
    }
    assert_ne!(ids[0], ids[1]);
}

#[test]
fn stix_export_plan_is_the_bundle() {
    let ls = lines(&["# c", "5.6.7.8", ""]);
    let ids = lines(&["o1", "o2", "o3"]);
    let plan = Exporter::export(ExportFormat::Taxii, "c2", None, &ls, "p", 1, 2, "T", "B", &ids).unwrap();
    let entries = vec![entry("5.6.7.8", "ipv4-addr")];
    assert_eq!(plan.content, stix_bundle_document(&entries, "C2 Servers", "T", "B", &ids));
}
