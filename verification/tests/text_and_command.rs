use malscraper::command::{parse_menu_command, MenuCommand};
use malscraper::text::{
    contains_str, count_occurrences, find_str, replace_all, split_lines, split_on,
    split_whitespace, trim, u64_to_decimal,
};
use malscraper::utils::{is_newer_version, trim_start_char, version_order};

#[test]
fn trim_removes_unicode_whitespace() {
    assert_eq!(trim("  \t abc \n"), "abc");
    assert_eq!(trim("\u{3000}x\u{a0}"), "x");
    assert_eq!(trim("   "), "");
}

#[test]
fn split_whitespace_matches_std() {
    let w = split_whitespace("  FEEDS   add  https://a.b \t x ");
    assert_eq!(w, vec!["FEEDS", "add", "https://a.b", "x"]);
    assert!(split_whitespace("   ").is_empty());
}

#[test]
fn replace_all_is_left_to_right() {
    assert_eq!(replace_all("http://www.a.com/http", "http", "hxxp"), "hxxp://www.a.com/hxxp");
    assert_eq!(replace_all("aaa", "aa", "b"), "ba");
    assert_eq!(replace_all("www.x.www.y", "www.", ""), "x.y");
}

#[test]
fn split_on_keeps_empty_pieces() {
    assert_eq!(split_on("a,,b,", ','), vec!["a", "", "b", ""]);
    assert_eq!(split_on("", ','), vec![""]);
}

#[test]
fn split_lines_matches_std_lines() {
    for s in ["", "a", "a\n", "a\r\nb", "\n", "a\n\nb\r", "x\r\n\r\n"] {
        let ours = split_lines(s);
        let std: Vec<&str> = s.lines().collect();
        assert_eq!(ours, std, "input {:?}", s);
    }
}

#[test]
fn substring_search() {
    assert!(contains_str("abcdef", "cde"));
    assert!(contains_str("abc", ""));
    assert!(!contains_str("abc", "abcd"));
    assert_eq!(find_str("a :: b :: c", " :: "), Some(1));
    assert_eq!(find_str("abc", "x"), None);
}

#[test]
fn counting_and_decimals() {
    assert_eq!(count_occurrences("a\nb\n\n", '\n'), 3);
    assert_eq!(u64_to_decimal(0), "0");
    assert_eq!(u64_to_decimal(1234567890), "1234567890");
    assert_eq!(u64_to_decimal(u64::MAX), u64::MAX.to_string());
}

#[test]
fn version_comparison() {
    assert!(is_newer_version("2.0.7", "v2.1.0"));
    assert!(!is_newer_version("2.0.7", "2.0.7"));
    assert!(!is_newer_version("v2.0.7", "2.0.6"));
    assert!(!is_newer_version("2.0.7", "not-a-version"));
    assert_eq!(version_order("2.0.7", "junk"), None);
    assert_eq!(version_order("vv1.0.0 ", " 1.0.1"), Some(true));
    assert_eq!(version_order(" v1.0.0", "1.0.1"), None);
    assert_eq!(trim_start_char("vvv1.2", 'v'), "1.2");
}

#[test]
fn menu_basic_commands() {
    assert!(matches!(parse_menu_command("full"), MenuCommand::FullScan));
    assert!(matches!(parse_menu_command("  Quick-Scan "), MenuCommand::QuickScan));
    assert!(matches!(parse_menu_command("exit"), MenuCommand::Quit));
    assert!(matches!(parse_menu_command("cd .."), MenuCommand::Home));
    assert!(matches!(parse_menu_command("/?"), MenuCommand::Help));
    assert!(matches!(parse_menu_command("dashboard"), MenuCommand::Stats));
    assert!(matches!(parse_menu_command("changes"), MenuCommand::Diff));
    match parse_menu_command("frobnicate") {
        MenuCommand::Unknown { command } => assert_eq!(command, "frobnicate"),
        other => panic!("unexpected {:?}", other),
    }
}

#[test]
fn menu_operands_are_kept_as_typed() {
    match parse_menu_command("search evil.com") {
        MenuCommand::Search { term } => assert_eq!(term, "evil.com"),
        other => panic!("unexpected {:?}", other),
    }
    assert!(matches!(parse_menu_command("search   "), MenuCommand::SearchUsage));
    match parse_menu_command("export csv payload out.csv") {
        MenuCommand::Export { format, report, output } => {
            assert_eq!(format, "csv");
            assert_eq!(report, "payload");
            assert_eq!(output.as_deref(), Some("out.csv"));
        }
        other => panic!("unexpected {:?}", other),
    }
    assert!(matches!(parse_menu_command("export csv"), MenuCommand::ExportMissingArgs));
}

#[test]
fn menu_filter_and_dedupe() {
    match parse_menu_command("filter amp evil thing") {
        MenuCommand::Filter { feed_type, pattern } => {
            assert_eq!(feed_type.as_deref(), Some("amp"));
            assert_eq!(pattern.as_deref(), Some("evil thing"));
        }
        other => panic!("unexpected {:?}", other),
    }
    match parse_menu_command("filter something") {
        MenuCommand::Filter { feed_type, pattern } => {
            assert_eq!(feed_type, None);
            assert_eq!(pattern.as_deref(), Some("something"));
        }
        other => panic!("unexpected {:?}", other),
    }
    match parse_menu_command("dedupe Master.txt") {
        MenuCommand::Dedupe { output } => assert_eq!(output.as_deref(), Some("Master.txt")),
        other => panic!("unexpected {:?}", other),
    }
    match parse_menu_command("unique") {
        MenuCommand::Dedupe { output } => assert_eq!(output, None),
        other => panic!("unexpected {:?}", other),
    }
}

#[test]
fn menu_whitelist_and_feeds() {
    match parse_menu_command("whitelist add good.com known benign") {
        MenuCommand::WhitelistAdd { indicator, reason } => {
            assert_eq!(indicator, "good.com");
            assert_eq!(reason.as_deref(), Some("known benign"));
        }
        other => panic!("unexpected {:?}", other),
    }
    assert!(matches!(parse_menu_command("whitelist list"), MenuCommand::WhitelistList));
    assert!(matches!(parse_menu_command("whitelist remove"), MenuCommand::WhitelistRemoveUsage));
    match parse_menu_command("whitelist drop x") {
        MenuCommand::WhitelistUnknown { sub } => assert_eq!(sub, "drop"),
        other => panic!("unexpected {:?}", other),
    }
    match parse_menu_command("feeds add http://x.org/f name some words") {
        MenuCommand::FeedsAdd { url, name, description } => {
            assert_eq!(url, "http://x.org/f");
            assert_eq!(name.as_deref(), Some("name"));
            assert_eq!(description.as_deref(), Some("some words"));
        }
        other => panic!("unexpected {:?}", other),
    }
    match parse_menu_command("feeds delete a b") {
        MenuCommand::FeedsRemove { name_or_url } => assert_eq!(name_or_url, "a b"),
        other => panic!("unexpected {:?}", other),
    }
    match parse_menu_command("compare amp c2") {
        MenuCommand::Compare { report1, report2 } => {
            assert_eq!(report1, "amp");
            assert_eq!(report2, "c2");
        }
        other => panic!("unexpected {:?}", other),
    }
    assert!(matches!(parse_menu_command("compare amp"), MenuCommand::CompareUsage));
}

#[test]
fn menu_usage_examples_work_as_typed() {
    match parse_menu_command("FEEDS ADD https://example.com/feed.txt") {
        MenuCommand::FeedsAdd { url, name, description } => {
            assert_eq!(url, "https://example.com/feed.txt");
            assert_eq!(name, None);
            assert_eq!(description, None);
        }
        other => panic!("unexpected {:?}", other),
    }
    match parse_menu_command("FILTER c2") {
        MenuCommand::Filter { feed_type, pattern } => {
            assert_eq!(feed_type.as_deref(), Some("c2"));
            assert_eq!(pattern, None);
        }
        other => panic!("unexpected {:?}", other),
    }
    match parse_menu_command("EXPORT iptables c2 firewall_rules.sh") {
        MenuCommand::Export { output, .. } => assert_eq!(output.as_deref(), Some("firewall_rules.sh")),
        other => panic!("unexpected {:?}", other),
    }
    match parse_menu_command("Search  Evil.*Com   x ") {
        MenuCommand::Search { term } => assert_eq!(term, "Evil.*Com x"),
        other => panic!("unexpected {:?}", other),
    }
}
