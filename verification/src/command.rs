//! The interactive prompt: what each typed line asks the tool to do.

use vstd::prelude::*;
use vstd::string::*;
use crate::text::{
    join_space, join_words, lowercase, split_whitespace, starts_with, str_eq, to_lowercase,
    to_uppercase, trim, trim_spec, uppercase, views, words,
};

verus! {

/// What a line typed at the prompt asks for, over character sequences.
pub enum MenuAction {
    FullScan,
    QuickScan,
    Quit,
    Clear,
    Help,
    Home,
    Tutorial,
    Reopen,
    Update,
    Stats,
    SearchUsage,
    Search { term: Seq<char> },
    FilterUsage,
    Filter { feed_type: Option<Seq<char>>, pattern: Option<Seq<char>> },
    ExportUsage,
    ExportMissingArgs,
    Export { format: Seq<char>, report: Seq<char>, output: Option<Seq<char>> },
    Dedupe { output: Option<Seq<char>> },
    Diff,
    ValidateUsage,
    Validate { report: Seq<char> },
    CompareUsage,
    Compare { report1: Seq<char>, report2: Seq<char> },
    WhitelistUsage,
    WhitelistAddUsage,
    WhitelistAdd { indicator: Seq<char>, reason: Option<Seq<char>> },
    WhitelistList,
    WhitelistRemoveUsage,
    WhitelistRemove { indicator: Seq<char> },
    WhitelistUnknown { sub: Seq<char> },
    FeedsUsage,
    FeedsAddUsage,
    FeedsAdd { url: Seq<char>, name: Option<Seq<char>>, description: Option<Seq<char>> },
    FeedsList,
    FeedsRemoveUsage,
    FeedsRemove { name_or_url: Seq<char> },
    FeedsUnknown { sub: Seq<char> },
    Unknown { command: Seq<char> },
}

/// What a line typed at the prompt asks for.
#[derive(Debug, Clone)]
pub enum MenuCommand {
    FullScan,
    QuickScan,
    Quit,
    Clear,
    Help,
    Home,
    Tutorial,
    Reopen,
    Update,
    Stats,
    SearchUsage,
    Search { term: String },
    FilterUsage,
    Filter { feed_type: Option<String>, pattern: Option<String> },
    ExportUsage,
    ExportMissingArgs,
    Export { format: String, report: String, output: Option<String> },
    Dedupe { output: Option<String> },
    Diff,
    ValidateUsage,
    Validate { report: String },
    CompareUsage,
    Compare { report1: String, report2: String },
    WhitelistUsage,
    WhitelistAddUsage,
    WhitelistAdd { indicator: String, reason: Option<String> },
    WhitelistList,
    WhitelistRemoveUsage,
    WhitelistRemove { indicator: String },
    WhitelistUnknown { sub: String },
    FeedsUsage,
    FeedsAddUsage,
    FeedsAdd { url: String, name: Option<String>, description: Option<String> },
    FeedsList,
    FeedsRemoveUsage,
    FeedsRemove { name_or_url: String },
    FeedsUnknown { sub: String },
    Unknown { command: String },
}

/// The view of an optional string.
pub open spec fn opt_view(o: Option<String>) -> Option<Seq<char>> {
    match o {
        Some(s) => Some(s@),
        None => None,
    }
}

impl View for MenuCommand {
    type V = MenuAction;

    open spec fn view(&self) -> MenuAction {
        match self {
            MenuCommand::FullScan => MenuAction::FullScan,
            MenuCommand::QuickScan => MenuAction::QuickScan,
            MenuCommand::Quit => MenuAction::Quit,
            MenuCommand::Clear => MenuAction::Clear,
            MenuCommand::Help => MenuAction::Help,
            MenuCommand::Home => MenuAction::Home,
            MenuCommand::Tutorial => MenuAction::Tutorial,
            MenuCommand::Reopen => MenuAction::Reopen,
            MenuCommand::Update => MenuAction::Update,
            MenuCommand::Stats => MenuAction::Stats,
            MenuCommand::SearchUsage => MenuAction::SearchUsage,
            MenuCommand::Search { term } => MenuAction::Search { term: term@ },
            MenuCommand::FilterUsage => MenuAction::FilterUsage,
            MenuCommand::Filter { feed_type, pattern } => MenuAction::Filter {
                feed_type: opt_view(*feed_type),
                pattern: opt_view(*pattern),
            },
            MenuCommand::ExportUsage => MenuAction::ExportUsage,
            MenuCommand::ExportMissingArgs => MenuAction::ExportMissingArgs,
            MenuCommand::Export { format, report, output } => MenuAction::Export {
                format: format@,
                report: report@,
                output: opt_view(*output),
            },
            MenuCommand::Dedupe { output } => MenuAction::Dedupe { output: opt_view(*output) },
            MenuCommand::Diff => MenuAction::Diff,
            MenuCommand::ValidateUsage => MenuAction::ValidateUsage,
            MenuCommand::Validate { report } => MenuAction::Validate { report: report@ },
            MenuCommand::CompareUsage => MenuAction::CompareUsage,
            MenuCommand::Compare { report1, report2 } => MenuAction::Compare {
                report1: report1@,
                report2: report2@,
            },
            MenuCommand::WhitelistUsage => MenuAction::WhitelistUsage,
            MenuCommand::WhitelistAddUsage => MenuAction::WhitelistAddUsage,
            MenuCommand::WhitelistAdd { indicator, reason } => MenuAction::WhitelistAdd {
                indicator: indicator@,
                reason: opt_view(*reason),
            },
            MenuCommand::WhitelistList => MenuAction::WhitelistList,
            MenuCommand::WhitelistRemoveUsage => MenuAction::WhitelistRemoveUsage,
            MenuCommand::WhitelistRemove { indicator } => MenuAction::WhitelistRemove {
                indicator: indicator@,
            },
            MenuCommand::WhitelistUnknown { sub } => MenuAction::WhitelistUnknown { sub: sub@ },
            MenuCommand::FeedsUsage => MenuAction::FeedsUsage,
            MenuCommand::FeedsAddUsage => MenuAction::FeedsAddUsage,
            MenuCommand::FeedsAdd { url, name, description } => MenuAction::FeedsAdd {
                url: url@,
                name: opt_view(*name),
                description: opt_view(*description),
            },
            MenuCommand::FeedsList => MenuAction::FeedsList,
            MenuCommand::FeedsRemoveUsage => MenuAction::FeedsRemoveUsage,
            MenuCommand::FeedsRemove { name_or_url } => MenuAction::FeedsRemove {
                name_or_url: name_or_url@,
            },
            MenuCommand::FeedsUnknown { sub } => MenuAction::FeedsUnknown { sub: sub@ },
            MenuCommand::Unknown { command } => MenuAction::Unknown { command: command@ },
        }
    }
}

/// The feed names that the FILTER command recognises (compared in lowercase).
pub open spec fn is_known_feed(s: Seq<char>) -> bool {
    ||| s == "payload"@
    ||| s == "payloads"@
    ||| s == "amp"@
    ||| s == "c2"@
    ||| s == "c2servers"@
    ||| s == "c2-servers"@
    ||| s == "hex"@
    ||| s == "hashes"@
    ||| s == "haus"@
    ||| s == "urlhaus"@
    ||| s == "url-haus"@
    ||| s == "phish"@
    ||| s == "phishtank"@
    ||| s == "phish-tank"@
    ||| s == "top100"@
    ||| s == "top"@
    ||| s == "top-100"@
}

fn known_feed(s: &str) -> (r: bool)
    ensures
        r == is_known_feed(s@),
{
    str_eq(s, "payload") || str_eq(s, "payloads") || str_eq(s, "amp") || str_eq(s, "c2")
        || str_eq(s, "c2servers") || str_eq(s, "c2-servers") || str_eq(s, "hex") || str_eq(
        s,
        "hashes",
    ) || str_eq(s, "haus") || str_eq(s, "urlhaus") || str_eq(s, "url-haus") || str_eq(s, "phish")
        || str_eq(s, "phishtank") || str_eq(s, "phish-tank") || str_eq(s, "top100") || str_eq(
        s,
        "top",
    ) || str_eq(s, "top-100")
}

/// The arguments of FILTER, from the words of the line as typed (the first is the command
/// word): a feed type and/or a pattern.
pub open spec fn filter_action(ws: Seq<Seq<char>>) -> MenuAction {
    if ws.len() < 2 {
        MenuAction::FilterUsage
    } else if ws.len() > 2 {
        MenuAction::Filter {
            feed_type: if is_known_feed(lowercase(ws[1])) {
                Some(ws[1])
            } else {
                None
            },
            pattern: Some(join_space(ws.skip(2))),
        }
    } else if is_known_feed(lowercase(ws[1])) {
        MenuAction::Filter { feed_type: Some(ws[1]), pattern: None }
    } else {
        MenuAction::Filter { feed_type: None, pattern: Some(ws[1]) }
    }
}

/// The arguments of EXPORT, from the words of the line as typed: a format, a report and an
/// optional output file.
pub open spec fn export_action(ws: Seq<Seq<char>>) -> MenuAction {
    if ws.len() < 2 {
        MenuAction::ExportUsage
    } else if ws.len() < 3 {
        MenuAction::ExportMissingArgs
    } else {
        MenuAction::Export {
            format: ws[1],
            report: ws[2],
            output: if ws.len() > 3 {
                Some(ws[3])
            } else {
                None
            },
        }
    }
}

/// The arguments of WHITELIST, from the words of the line as typed: ADD, LIST or REMOVE (in any
/// case) and their operands.
pub open spec fn whitelist_action(ws: Seq<Seq<char>>) -> MenuAction {
    if ws.len() < 2 {
        MenuAction::WhitelistUsage
    } else {
        let sub = uppercase(ws[1]);
        if sub == "ADD"@ {
            if ws.len() < 3 {
                MenuAction::WhitelistAddUsage
            } else {
                MenuAction::WhitelistAdd {
                    indicator: ws[2],
                    reason: if ws.len() > 3 {
                        Some(join_space(ws.skip(3)))
                    } else {
                        None
                    },
                }
            }
        } else if sub == "LIST"@ {
            MenuAction::WhitelistList
        } else if sub == "REMOVE"@ || sub == "DELETE"@ {
            if ws.len() < 3 {
                MenuAction::WhitelistRemoveUsage
            } else {
                MenuAction::WhitelistRemove { indicator: join_space(ws.skip(2)) }
            }
        } else {
            MenuAction::WhitelistUnknown { sub: ws[1] }
        }
    }
}

/// The arguments of FEEDS, from the words of the line as typed: ADD, LIST or REMOVE (in any
/// case) and their operands.
pub open spec fn feeds_action(ws: Seq<Seq<char>>) -> MenuAction {
    if ws.len() < 2 {
        MenuAction::FeedsUsage
    } else {
        let sub = uppercase(ws[1]);
        if sub == "ADD"@ {
            if ws.len() < 3 {
                MenuAction::FeedsAddUsage
            } else {
                MenuAction::FeedsAdd {
                    url: ws[2],
                    name: if ws.len() > 3 {
                        Some(ws[3])
                    } else {
                        None
                    },
                    description: if ws.len() > 4 {
                        Some(join_space(ws.skip(4)))
                    } else {
                        None
                    },
                }
            }
        } else if sub == "LIST"@ {
            MenuAction::FeedsList
        } else if sub == "REMOVE"@ || sub == "DELETE"@ {
            if ws.len() < 3 {
                MenuAction::FeedsRemoveUsage
            } else {
                MenuAction::FeedsRemove { name_or_url: join_space(ws.skip(2)) }
            }
        } else {
            MenuAction::FeedsUnknown { sub: ws[1] }
        }
    }
}

/// What the typed line `command` asks for. The command word is matched without regard to case
/// (on the trimmed, uppercased line); its operands (terms, feed types, patterns, formats,
/// report names, output files, indicators, reasons, addresses, feed names and descriptions) are
/// the whitespace-separated words of the line exactly as typed, several of them joined by single
/// spaces where one operand takes the rest of the line.
pub open spec fn menu_action(command: Seq<char>) -> MenuAction {
    let cmd = trim_spec(uppercase(command));
    let ws = words(command);
    if cmd == "FULL"@ || cmd == "FULL-SCAN"@ || cmd == "FSCAN"@ {
        MenuAction::FullScan
    } else if cmd == "QUICK"@ || cmd == "QUICK-SCAN"@ || cmd == "QSCAN"@ {
        MenuAction::QuickScan
    } else if cmd == "QUIT"@ || cmd == "EXIT"@ {
        MenuAction::Quit
    } else if cmd == "CLEAR"@ || cmd == "CLEAR-HOST"@ || cmd == "CLS"@ {
        MenuAction::Clear
    } else if cmd == "HELP"@ || cmd == "GET-HELP"@ || cmd == "?"@ || cmd == "-?"@ || cmd == "/?"@
        || cmd == "MENU"@ {
        MenuAction::Help
    } else if cmd == "BACK"@ || cmd == "CD .."@ || cmd == "HOME"@ {
        MenuAction::Home
    } else if cmd == "TUTORIAL"@ {
        MenuAction::Tutorial
    } else if cmd == "REOPEN"@ || cmd == "OPEN"@ {
        MenuAction::Reopen
    } else if cmd == "INSTALL"@ || cmd == "UPDATE"@ {
        MenuAction::Update
    } else if cmd == "STATS"@ || cmd == "STATISTICS"@ || cmd == "DASHBOARD"@ {
        MenuAction::Stats
    } else if cmd == "SEARCH"@ {
        MenuAction::SearchUsage
    } else if "SEARCH "@.is_prefix_of(cmd) {
        if ws.len() < 2 {
            MenuAction::SearchUsage
        } else {
            MenuAction::Search { term: join_space(ws.skip(1)) }
        }
    } else if cmd == "FILTER"@ {
        MenuAction::FilterUsage
    } else if "FILTER "@.is_prefix_of(cmd) {
        filter_action(ws)
    } else if cmd == "EXPORT"@ {
        MenuAction::ExportUsage
    } else if "EXPORT "@.is_prefix_of(cmd) {
        export_action(ws)
    } else if cmd == "DEDUPE"@ || cmd == "UNIQUE"@ {
        MenuAction::Dedupe { output: None }
    } else if "DEDUPE "@.is_prefix_of(cmd) || "UNIQUE "@.is_prefix_of(cmd) {
        MenuAction::Dedupe {
            output: if ws.len() > 1 {
                Some(ws[1])
            } else {
                None
            },
        }
    } else if cmd == "DIFF"@ || cmd == "CHANGES"@ {
        MenuAction::Diff
    } else if cmd == "VALIDATE"@ {
        MenuAction::ValidateUsage
    } else if "VALIDATE "@.is_prefix_of(cmd) {
        if ws.len() < 2 {
            MenuAction::ValidateUsage
        } else {
            MenuAction::Validate { report: join_space(ws.skip(1)) }
        }
    } else if cmd == "COMPARE"@ {
        MenuAction::CompareUsage
    } else if "COMPARE "@.is_prefix_of(cmd) {
        if ws.len() < 3 {
            MenuAction::CompareUsage
        } else {
            MenuAction::Compare { report1: ws[1], report2: ws[2] }
        }
    } else if cmd == "WHITELIST"@ {
        MenuAction::WhitelistUsage
    } else if "WHITELIST "@.is_prefix_of(cmd) {
        whitelist_action(ws)
    } else if cmd == "FEEDS"@ {
        MenuAction::FeedsUsage
    } else if "FEEDS "@.is_prefix_of(cmd) {
        feeds_action(ws)
    } else {
        MenuAction::Unknown { command }
    }
}

fn owned_word(args: &Vec<&str>, i: usize) -> (r: String)
    requires
        i < args@.len(),
    ensures
        r@ == views(args@)[i as int],
{
    args[i].to_owned()
}

fn parse_filter(args: &Vec<&str>) -> (r: MenuCommand)
    ensures
        r@ == filter_action(views(args@)),
{
    if args.len() < 2 {
        return MenuCommand::FilterUsage;
    }
    let first_lower = to_lowercase(args[1]);
    let known = known_feed(first_lower.as_str());
    if args.len() > 2 {
        let feed_type = if known {
            Some(owned_word(args, 1))
        } else {
            None
        };
        MenuCommand::Filter { feed_type, pattern: Some(join_words(args, 2)) }
    } else if known {
        MenuCommand::Filter { feed_type: Some(owned_word(args, 1)), pattern: None }
    } else {
        MenuCommand::Filter { feed_type: None, pattern: Some(owned_word(args, 1)) }
    }
}

fn parse_export(args: &Vec<&str>) -> (r: MenuCommand)
    ensures
        r@ == export_action(views(args@)),
{
    if args.len() < 2 {
        MenuCommand::ExportUsage
    } else if args.len() < 3 {
        MenuCommand::ExportMissingArgs
    } else {
        let output = if args.len() > 3 {
            Some(owned_word(args, 3))
        } else {
            None
        };
        MenuCommand::Export { format: owned_word(args, 1), report: owned_word(args, 2), output }
    }
}

fn parse_whitelist(args: &Vec<&str>) -> (r: MenuCommand)
    ensures
        r@ == whitelist_action(views(args@)),
{
    if args.len() < 2 {
        return MenuCommand::WhitelistUsage;
    }
    let sub = to_uppercase(args[1]);
    if str_eq(sub.as_str(), "ADD") {
        if args.len() < 3 {
            MenuCommand::WhitelistAddUsage
        } else {
            let reason = if args.len() > 3 {
                Some(join_words(args, 3))
            } else {
                None
            };
            MenuCommand::WhitelistAdd { indicator: owned_word(args, 2), reason }
        }
    } else if str_eq(sub.as_str(), "LIST") {
        MenuCommand::WhitelistList
    } else if str_eq(sub.as_str(), "REMOVE") || str_eq(sub.as_str(), "DELETE") {
        if args.len() < 3 {
            MenuCommand::WhitelistRemoveUsage
        } else {
            MenuCommand::WhitelistRemove { indicator: join_words(args, 2) }
        }
    } else {
        MenuCommand::WhitelistUnknown { sub: owned_word(args, 1) }
    }
}

fn parse_feeds(args: &Vec<&str>) -> (r: MenuCommand)
    ensures
        r@ == feeds_action(views(args@)),
{
    if args.len() < 2 {
        return MenuCommand::FeedsUsage;
    }
    let sub = to_uppercase(args[1]);
    if str_eq(sub.as_str(), "ADD") {
        if args.len() < 3 {
            MenuCommand::FeedsAddUsage
        } else {
            let name = if args.len() > 3 {
                Some(owned_word(args, 3))
            } else {
                None
            };
            let description = if args.len() > 4 {
                Some(join_words(args, 4))
            } else {
                None
            };
            MenuCommand::FeedsAdd { url: owned_word(args, 2), name, description }
        }
    } else if str_eq(sub.as_str(), "LIST") {
        MenuCommand::FeedsList
    } else if str_eq(sub.as_str(), "REMOVE") || str_eq(sub.as_str(), "DELETE") {
        if args.len() < 3 {
            MenuCommand::FeedsRemoveUsage
        } else {
            MenuCommand::FeedsRemove { name_or_url: join_words(args, 2) }
        }
    } else {
        MenuCommand::FeedsUnknown { sub: owned_word(args, 1) }
    }
}

/// Reads a line typed at the prompt.
#[verifier::rlimit(40)]
pub fn parse_menu_command(command: &str) -> (r: MenuCommand)
    ensures
        r@ == menu_action(command@),
{
    let upper = to_uppercase(command);
    let cmd = trim(upper.as_str());
    let args = split_whitespace(command);
    if str_eq(cmd, "FULL") || str_eq(cmd, "FULL-SCAN") || str_eq(cmd, "FSCAN") {
        MenuCommand::FullScan
    } else if str_eq(cmd, "QUICK") || str_eq(cmd, "QUICK-SCAN") || str_eq(cmd, "QSCAN") {
        MenuCommand::QuickScan
    } else if str_eq(cmd, "QUIT") || str_eq(cmd, "EXIT") {
        MenuCommand::Quit
    } else if str_eq(cmd, "CLEAR") || str_eq(cmd, "CLEAR-HOST") || str_eq(cmd, "CLS") {
        MenuCommand::Clear
    } else if str_eq(cmd, "HELP") || str_eq(cmd, "GET-HELP") || str_eq(cmd, "?") || str_eq(
        cmd,
        "-?",
    ) || str_eq(cmd, "/?") || str_eq(cmd, "MENU") {
        MenuCommand::Help
    } else if str_eq(cmd, "BACK") || str_eq(cmd, "CD ..") || str_eq(cmd, "HOME") {
        MenuCommand::Home
    } else if str_eq(cmd, "TUTORIAL") {
        MenuCommand::Tutorial
    } else if str_eq(cmd, "REOPEN") || str_eq(cmd, "OPEN") {
        MenuCommand::Reopen
    } else if str_eq(cmd, "INSTALL") || str_eq(cmd, "UPDATE") {
        MenuCommand::Update
    } else if str_eq(cmd, "STATS") || str_eq(cmd, "STATISTICS") || str_eq(cmd, "DASHBOARD") {
        MenuCommand::Stats
    } else if str_eq(cmd, "SEARCH") {
        MenuCommand::SearchUsage
    } else if starts_with(cmd, "SEARCH ") {
        if args.len() < 2 {
            MenuCommand::SearchUsage
        } else {
            MenuCommand::Search { term: join_words(&args, 1) }
        }
    } else if str_eq(cmd, "FILTER") {
        MenuCommand::FilterUsage
    } else if starts_with(cmd, "FILTER ") {
        parse_filter(&args)
    } else if str_eq(cmd, "EXPORT") {
        MenuCommand::ExportUsage
    } else if starts_with(cmd, "EXPORT ") {
        parse_export(&args)
    } else if str_eq(cmd, "DEDUPE") || str_eq(cmd, "UNIQUE") {
        MenuCommand::Dedupe { output: None }
    } else if starts_with(cmd, "DEDUPE ") || starts_with(cmd, "UNIQUE ") {
        let output = if args.len() > 1 {
            Some(owned_word(&args, 1))
        } else {
            None
        };
        MenuCommand::Dedupe { output }
    } else if str_eq(cmd, "DIFF") || str_eq(cmd, "CHANGES") {
        MenuCommand::Diff
    } else if str_eq(cmd, "VALIDATE") {
        MenuCommand::ValidateUsage
    } else if starts_with(cmd, "VALIDATE ") {
        if args.len() < 2 {
            MenuCommand::ValidateUsage
        } else {
            MenuCommand::Validate { report: join_words(&args, 1) }
        }
    } else if str_eq(cmd, "COMPARE") {
        MenuCommand::CompareUsage
    } else if starts_with(cmd, "COMPARE ") {
        if args.len() < 3 {
            MenuCommand::CompareUsage
        } else {
            MenuCommand::Compare { report1: owned_word(&args, 1), report2: owned_word(&args, 2) }
        }
    } else if str_eq(cmd, "WHITELIST") {
        MenuCommand::WhitelistUsage
    } else if starts_with(cmd, "WHITELIST ") {
        parse_whitelist(&args)
    } else if str_eq(cmd, "FEEDS") {
        MenuCommand::FeedsUsage
    } else if starts_with(cmd, "FEEDS ") {
        parse_feeds(&args)
    } else {
        MenuCommand::Unknown { command: command.to_owned() }
    }
}

} // verus!
