use malscraper::completer::CommandCompleter;
use malscraper::config::ReportKind;
use malscraper::custom_feeds::{default_name, CustomFeedManager, CustomFeeds, FeedError};
use malscraper::history::{History, ReportIndicators, ReportSnapshot, ScanHistory};
use malscraper::menu::{help_menu_entries, help_menu_lines, help_menu_width, menu_padding};
use malscraper::printer::Printer;
use malscraper::scan::DownloadStatus;
use malscraper::search::{filter_feed_kinds, Search, SearchError};
use malscraper::stats::{ReportFile, Statistics};
use malscraper::update::{ReleaseAsset, UpdateChecker, UpdateDecision};
use malscraper::utils::{get_random_exit_message, get_random_splash};
use malscraper::validate::{IpParse, ValidationResult, Validator};
use malscraper::whitelist::{WhitelistError, WhitelistManager};

fn lines(v: &[&str]) -> Vec<String> {
    v.iter().map(|s| s.to_string()).collect()
}

#[test]
fn whitelist_add_remove_filter() {
    let mut entries = Vec::new();
    WhitelistManager::add_indicator(&mut entries, "  Good.COM ", Some("ok".to_string()), "d".to_string()).unwrap();
    assert_eq!(entries[0].indicator, "good.com");
    assert_eq!(entries[0].indicator_type, "domain");
    assert!(WhitelistManager::is_whitelisted(&entries, "GOOD.com"));
    match WhitelistManager::add_indicator(&mut entries, "good.com", None, "d".to_string()) {
        Err(WhitelistError::AlreadyWhitelisted { indicator }) => assert_eq!(indicator, "good.com"),
        _ => panic!("expected a duplicate"),
    }
    let kept = WhitelistManager::filter_indicators(&entries, &lines(&["good.com", "bad.com", " GOOD.COM"]));
    assert_eq!(kept, vec!["bad.com".to_string()]);
    WhitelistManager::remove_indicator(&mut entries, "GOOD.COM").unwrap();
    assert!(!WhitelistManager::is_whitelisted(&entries, "good.com"));
    match WhitelistManager::remove_indicator(&mut entries, "good.com") {
        Err(WhitelistError::NotFound { indicator }) => assert_eq!(indicator, "good.com"),
        _ => panic!("expected a missing entry"),
    }
}

#[test]
fn feeds_add_remove() {
    let mut feeds = CustomFeeds { feeds: Vec::new() };
    assert!(matches!(
        CustomFeedManager::add_feed(&mut feeds, "ftp://x", None, None, 5),
        Err(FeedError::InvalidUrl)
    ));
    CustomFeedManager::add_feed(&mut feeds, "https://feeds.example.org/list.txt", None, None, 5).unwrap();
    assert_eq!(feeds.feeds[0].name, "feeds.example.org");
    assert!(matches!(
        CustomFeedManager::add_feed(&mut feeds, "https://feeds.example.org/list.txt", Some("x"), None, 6),
        Err(FeedError::DuplicateUrl)
    ));
    CustomFeedManager::add_feed(&mut feeds, "http://b.org/", Some("bee"), Some("d".to_string()), 7).unwrap();
    let map = CustomFeedManager::get_all_feeds(&feeds);
    assert_eq!(map.get("bee").map(|s| s.as_str()), Some("http://b.org/"));
    CustomFeedManager::remove_feed(&mut feeds, "feeds.example.org").unwrap();
    assert_eq!(feeds.feeds.len(), 1);
    match CustomFeedManager::remove_feed(&mut feeds, "nothing") {
        Err(FeedError::NotFound { name_or_url }) => assert_eq!(name_or_url, "nothing"),
        _ => panic!("expected a missing feed"),
    }
    assert_eq!(default_name("https://a.b/c/d"), "a.b");
}

#[test]
fn history_baseline_then_diff() {
    let empty = ScanHistory { snapshots: Vec::new(), last_scan_time: 0 };
    let cur = vec![ReportIndicators { report_name: "AMP Report".to_string(), indicators: lines(&["a", "b"]) }];
    let first = History::compare_with_history(&empty, cur, 100);
    assert!(first.baseline);
    assert_eq!(first.updated.snapshots.len(), 1);
    let cur2 = vec![ReportIndicators { report_name: "AMP Report".to_string(), indicators: lines(&["b", "c"]) }];
    let second = History::compare_with_history(&first.updated, cur2, 200);
    assert!(!second.baseline);
    assert_eq!(second.total_new, 1);
    assert_eq!(second.total_removed, 1);
    assert_eq!(second.total_unchanged, 1);
    assert_eq!(second.last_scan, Some(100));
    let d = second.reports[0].against.as_ref().unwrap();
    assert_eq!(d.new_indicators, vec!["c".to_string()]);
    assert_eq!(d.removed_indicators, vec!["a".to_string()]);
    let cur3 = vec![ReportIndicators { report_name: "AMP Report".to_string(), indicators: lines(&["b", "c"]) }];
    let third = History::compare_with_history(&second.updated, cur3, 300);
    assert_eq!((third.total_new, third.total_removed, third.total_unchanged), (0, 0, 2));
    let vanished = History::compare_with_history(&third.updated, Vec::new(), 400);
    assert_eq!(vanished.vanished.len(), 1);
    assert_eq!(vanished.total_removed, 2);
    let _ = ReportSnapshot { report_name: String::new(), indicators: Vec::new(), timestamp: 0 };
}

#[test]
fn history_reads_csv_reports() {
    let ls = lines(&[
        "# id,url",
        "1,https://Evil.Example/x,2.3.4.5",
        "2,https://evil.example/y",
        "",
    ]);
    let set = History::read_indicators(&ls, true);
    assert_eq!(set.items().clone(), lines(&["evil.example", "2.3.4.5"]));
    let first_only = History::read_indicators(&lines(&["abc,def", "x,y"]), true);
    assert_eq!(first_only.items().clone(), lines(&["abc"]));
    let collected = History::collect_current_indicators(vec![
        (ReportKind::Amp, Some(lines(&["a.com", "a.com"]))),
        (ReportKind::C2, None),
    ]);
    assert_eq!(collected.len(), 1);
    assert_eq!(collected[0].report_name, "AMP Report");
    assert_eq!(collected[0].indicators, lines(&["a.com"]));
}

#[test]
fn validation_reads_and_classifies() {
    let ls = lines(&["abc,def", "x,y,abc"]);
    assert_eq!(Validator::read_indicators(&ls, true), lines(&["abc"]));
    let r = Validator::validate_indicator("  example.org ", IpParse::NotAnAddress, false);
    assert_eq!(r.indicator, "example.org");
    assert_eq!(r.indicator_type, "Domain");
    assert!(r.is_valid_format);
    assert_eq!(r.is_active, Some(false));
    let ip = Validator::validate_indicator("::1", IpParse::V6, true);
    assert_eq!(ip.indicator_type, "IP Address");
    assert!(!ip.is_valid_format);
    assert_eq!(ip.is_active, None);
    let v4 = Validator::validate_indicator("8.8.8.8", IpParse::V4, false);
    assert_eq!(v4.is_active, Some(true));
    let url = Validator::validate_indicator("http://x", IpParse::NotAnAddress, true);
    assert_eq!(url.indicator_type, "URL");
    assert_eq!(url.is_active, None);
    assert!(Validator::needs_lookup("a.b", IpParse::NotAnAddress));
    assert!(!Validator::needs_lookup("nodot", IpParse::NotAnAddress));
    let s = Validator::summarize(&vec![r, ip, v4, url]);
    assert_eq!((s.total, s.valid_format, s.invalid_format), (4, 3, 1));
    assert_eq!((s.active, s.inactive, s.not_checked), (1, 1, 2));
}

#[test]
fn statistics_counts() {
    assert_eq!(Statistics::count_unique_lines(&lines(&["a", " a ", "", "b"])), 2);
    assert_eq!(Statistics::count_unique_urls(&lines(&["http://A.com/x http://b.com", "https://a.COM", "none"])), 1);
    assert_eq!(
        Statistics::count_unique_hashes(&lines(&["d41d8cd98f00b204e9800998ecf8427e D41D8CD98F00B204E9800998ECF8427E"])),
        1
    );
    assert_eq!(Statistics::count_unique_csv_urls(&lines(&["1,http://a.org,http://b.org/x"])), 2);
    let stats = Statistics::analyze_all_reports(vec![
        (ReportKind::Top100, ReportFile { exists: true, file_size: 10, last_modified: None, line_count: 3, lines: None }),
        (ReportKind::Amp, ReportFile { exists: true, file_size: 5, last_modified: Some("t".to_string()), line_count: 2, lines: None }),
        (ReportKind::C2, ReportFile { exists: false, file_size: 9, last_modified: None, line_count: 9, lines: None }),
    ]);
    assert_eq!(stats[0].unique_count, 3);
    assert_eq!(stats[1].unique_count, 0);
    assert_eq!(stats[2].file_size, 0);
    assert_eq!(stats[2].file_name, "C2 Servers");
    let sum = Statistics::summarize(&stats).unwrap();
    assert_eq!((sum.total_reports, sum.existing_reports, sum.total_lines, sum.total_size), (3, 2, 5, 15));
}

#[test]
fn search_and_filter() {
    let files = vec![
        (ReportKind::Payload, vec![Some("http://Evil.com/a".to_string()), Some("clean".to_string())]),
        (ReportKind::Amp, vec![Some("evil.com".to_string()), None]),
        (ReportKind::C2, vec![Some("x".to_string()), Some("EVIL.COM".to_string())]),
    ];
    let rs = Search::search_all_reports(&files, "evil.com", false).unwrap();
    assert_eq!(rs.len(), 2);
    assert_eq!(rs[0].file_name, "Payload Domains");
    assert_eq!(rs[0].matched_term, "Evil.com");
    assert_eq!(rs[1].line_number, 2);
    let cs = Search::search_all_reports(&files, "evil.com", true).unwrap();
    assert_eq!(cs.len(), 0);
    let listed = Search::filter_reports(&files, Some("amp"), None).unwrap();
    assert_eq!(listed.len(), 1);
    assert_eq!(listed[0].content, "evil.com");
    assert_eq!(listed[0].matched_term, "");
    assert_eq!(Search::filter_reports(&files, Some("AMP"), None).err(), Some(SearchError::UnknownFeedType));
    let filtered = Search::filter_reports(&files, None, Some("a\\.")).unwrap();
    assert_eq!(filtered.len(), 0);
    assert_eq!(filter_feed_kinds(Some("c2-servers")), Some(vec![ReportKind::C2]));
    assert_eq!(Search::build_pattern("a.b", true), "a.b");
    assert_eq!(Search::build_pattern("a.b", false), "(?i)a.b");
    let re = vec![(ReportKind::Payload, vec![Some("http://evil-site.com/a".to_string())])];
    let hits = Search::search_all_reports(&re, "evil.*com", false).unwrap();
    assert_eq!(hits.len(), 1);
    assert_eq!(hits[0].matched_term, "evil-site.com");
    assert_eq!(Search::search_all_reports(&re, "(", false).err(), Some(SearchError::InvalidPattern));
}

#[test]
fn completion() {
    let c = CommandCompleter::new();
    assert_eq!(c.complete("QU"), vec!["quick".to_string(), "quick-scan".to_string(), "quit".to_string()]);
    assert_eq!(c.complete("  ").len(), 37);
    assert_eq!(c.complete("st"), vec!["stats".to_string()]);
    assert_eq!(c.complete("FEE"), vec!["feeds".to_string()]);
    assert!(c.complete("zzz").is_empty());
}

#[test]
fn update_decisions() {
    assert!(UpdateChecker::should_check_for_updates(false, Some(0)));
    assert!(!UpdateChecker::should_check_for_updates(true, Some(100)));
    assert!(UpdateChecker::should_check_for_updates(true, Some(86400)));
    assert!(UpdateChecker::should_check_for_updates(true, None));
    assert_eq!(UpdateChecker::latest_version(Some("v2.1.0")), "2.1.0");
    assert_eq!(UpdateChecker::latest_version(None), "0.0.0");
    match UpdateChecker::assess_release("2.0.7", Some("v2.1.0"), Some("1\n2\n3\n4\n5\n6")) {
        UpdateDecision::Newer { version, notes, more_notes } => {
            assert_eq!(version, "2.1.0");
            assert_eq!(notes, vec!["1", "2", "3", "4", "5"]);
            assert!(more_notes);
        }
        _ => panic!("expected a newer release"),
    }
    assert!(matches!(UpdateChecker::assess_release("2.0.7", Some("2.0.7"), None), UpdateDecision::UpToDate));
    let assets = vec![
        ReleaseAsset { name: Some("malscraper-x86_64-unknown-linux-gnu.sha256".to_string()), browser_download_url: Some("u1".to_string()) },
        ReleaseAsset { name: Some("malscraper-linux-x86_64".to_string()), browser_download_url: None },
        ReleaseAsset { name: Some("malscraper-x86_64-unknown-linux-gnu".to_string()), browser_download_url: Some("u3".to_string()) },
    ];
    assert_eq!(
        UpdateChecker::find_platform_binary(&assets, "linux", "x86_64"),
        Some(("malscraper-x86_64-unknown-linux-gnu".to_string(), "u3".to_string()))
    );
    assert_eq!(UpdateChecker::find_platform_binary(&assets, "windows", "aarch64"), None);
    assert_eq!(UpdateChecker::progress_percent(50, 200), Some(25));
    assert_eq!(UpdateChecker::progress_percent(50, 0), None);
}

#[test]
fn download_status_summary() {
    let mut s = DownloadStatus::new();
    s.record("C2 report", true);
    s.record("Hex report", false);
    s.record("Payload domains", false);
    s.record("Hex report", true);
    let sum = s.summary();
    assert_eq!((sum.succeeded, sum.total), (2, 3));
    assert_eq!(sum.failed, vec!["Payload domains".to_string()]);
}

#[test]
fn random_messages_come_from_their_lists() {
    for _ in 0..20 {
        assert!(get_random_splash().ends_with("..."));
        let m = get_random_exit_message();
        assert!(["Bye...", "Cya...", "Byeeeeeeeeeeee...", "Until next time...", "Happy hunting!"]
            .iter()
            .any(|p| m.starts_with(p)));
    }
}

#[test]
fn help_menu_aligns_commands() {
    let entries = help_menu_entries();
    assert_eq!(entries.len(), 19);
    assert_eq!(entries[0].0, "Tutorial of how to use this tool");
    assert_eq!(entries[0].1, "TUTORIAL");
    assert_eq!(entries[18].2, "feed");
    let pairs: Vec<(String, String)> = entries.iter().map(|(d, c, _)| (d.clone(), c.clone())).collect();
    assert_eq!(help_menu_width(&pairs), 54);
    let lines = help_menu_lines(&pairs);
    assert_eq!(lines.len(), 19);
    assert_eq!(lines[5], format!("[*] Quit malScraper{} QUIT,EXIT", " ".repeat(54 - 15)));
    for (line, (_, cmds)) in lines.iter().zip(pairs.iter()) {
        assert_eq!(&line[59..], cmds.as_str());
    }
}

#[test]
fn help_menu_edge_widths() {
    assert_eq!(help_menu_width(&Vec::new()), 52);
    assert!(help_menu_lines(&Vec::new()).is_empty());
    let one = vec![("ab".to_string(), "X".to_string())];
    assert_eq!(help_menu_width(&one), 4);
    assert_eq!(help_menu_lines(&one), vec!["[*] ab   X".to_string()]);
    assert_eq!(menu_padding(10, 4), 2);
    assert_eq!(menu_padding(3, 10), 7);
}

#[test]
fn highlighted_description() {
    assert_eq!(Printer::highlighted("Show this Help Menu", None), "Show this Help Menu");
    let h = Printer::highlighted("Compare two reports", Some("Compare"));
    assert!(h == "Compare two reports" || h == "\u{1b}[1;36mCompare\u{1b}[0m two reports");
}

#[test]
fn history_counts_repeated_indicators_once() {
    let snap = ReportSnapshot {
        report_name: "C2 Servers".to_string(),
        indicators: lines(&["a", "a", "b", "x", "x"]),
        timestamp: 50,
    };
    let gone = ReportSnapshot {
        report_name: "AMP Report".to_string(),
        indicators: lines(&["q", "q", "r"]),
        timestamp: 50,
    };
    let history = ScanHistory { snapshots: vec![snap, gone], last_scan_time: 50 };
    let cur = vec![ReportIndicators { report_name: "C2 Servers".to_string(), indicators: lines(&["b", "c", "c"]) }];
    let r = History::compare_with_history(&history, cur, 60);
    let d = &r.reports[0];
    assert_eq!(d.current_count, 2);
    let a = d.against.as_ref().unwrap();
    assert_eq!(a.previous_count, 3);
    assert_eq!(a.new_indicators, lines(&["c"]));
    assert_eq!(a.removed_indicators, lines(&["a", "x"]));
    assert_eq!(a.unchanged, 1);
    assert_eq!(r.vanished.len(), 1);
    assert_eq!(r.vanished[0].previous_count, 2);
    assert_eq!((r.total_new, r.total_removed, r.total_unchanged), (1, 4, 1));
}

#[test]
fn whitelist_add_then_remove_restores() {
    let mut entries = Vec::new();
    WhitelistManager::add_indicator(&mut entries, "keep.org", None, "d1".to_string()).unwrap();
    WhitelistManager::add_indicator(&mut entries, "10.0.0.1", Some("lab".to_string()), "d2".to_string()).unwrap();
    let before: Vec<(String, String, String, Option<String>)> = entries
        .iter()
        .map(|e| (e.indicator.clone(), e.indicator_type.clone(), e.added_date.clone(), e.reason.clone()))
        .collect();
    WhitelistManager::add_indicator(&mut entries, " Temp.Example.COM ", None, "d3".to_string()).unwrap();
    assert!(WhitelistManager::is_whitelisted(&entries, "temp.example.com"));
    WhitelistManager::remove_indicator(&mut entries, " Temp.Example.COM ").unwrap();
    let after: Vec<(String, String, String, Option<String>)> = entries
        .iter()
        .map(|e| (e.indicator.clone(), e.indicator_type.clone(), e.added_date.clone(), e.reason.clone()))
        .collect();
    assert_eq!(before, after);
    assert!(!WhitelistManager::is_whitelisted(&entries, "temp.example.com"));
}

fn vr(indicator: &str, t: &str, ok: bool) -> ValidationResult {
    ValidationResult {
        indicator: indicator.to_string(),
        indicator_type: t.to_string(),
        is_valid_format: ok,
        is_active: None,
        error: None,
    }
}

#[test]
fn validation_grouped_by_type() {
    let results = vec![
        vr("a.com", "Domain", true),
        vr("1.2.3.4", "IP Address", true),
        vr("bad..com", "Domain", false),
        vr("b.org", "Domain", true),
        vr("999.1.1.1", "IP Address", false),
        vr("http://x", "URL", true),
    ];
    assert_eq!(
        Validator::by_type(&results),
        vec![
            ("Domain".to_string(), 3, 2),
            ("IP Address".to_string(), 2, 1),
            ("URL".to_string(), 1, 1),
        ]
    );
    assert!(Validator::by_type(&Vec::new()).is_empty());
}
