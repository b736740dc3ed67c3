//! Report locations, feed addresses and the fixed tables of the tool.

use vstd::prelude::*;
use vstd::string::*;
use crate::text::str_eq;

verus! {

/// Timeout of feed downloads, in seconds.
pub const REQUEST_TIMEOUT_SECS: u64 = 30;

/// Timeout of the update check, in seconds.
pub const UPDATE_CHECK_TIMEOUT_SECS: u64 = 10;

/// Number of payload lines kept in the "most recent" report.
pub const TOP_DOMAINS_COUNT: usize = 100;

/// The version of this tool.
pub const CURRENT_VERSION: &'static str = "2.0.7";

/// Address of the latest-release description of the tool.
pub const RELEASE_URL: &'static str = "https://api.github.com/repos/Ryan-Monaghan/malScraper/releases/latest";

/// The seven reports the tool writes.
#[derive(Debug, Clone, Copy, PartialEq, Eq, Structural)]
pub enum ReportKind {
    Payload,
    Amp,
    C2,
    Top100,
    Hex,
    Haus,
    Phish,
}

impl ReportKind {
    /// Whether the report is stored as comma-separated values.
    pub open spec fn spec_is_csv(self) -> bool {
        self == ReportKind::Hex || self == ReportKind::Haus || self == ReportKind::Phish
    }

    /// Whether the report is stored as comma-separated values (its file ends in `.csv`).
    #[verifier::when_used_as_spec(spec_is_csv)]
    pub fn is_csv(self) -> (r: bool)
        ensures
            r == self.spec_is_csv(),
    {
        match self {
            ReportKind::Hex | ReportKind::Haus | ReportKind::Phish => true,
            _ => false,
        }
    }

    /// The name under which the report is shown to the user.
    pub open spec fn spec_display_name(self) -> Seq<char> {
        match self {
            ReportKind::Payload => "Payload Domains"@,
            ReportKind::Amp => "AMP Report"@,
            ReportKind::C2 => "C2 Servers"@,
            ReportKind::Top100 => "Top 100"@,
            ReportKind::Hex => "Hex Report"@,
            ReportKind::Haus => "URLHaus Malware Downloads"@,
            ReportKind::Phish => "PhishTank"@,
        }
    }

    /// The name under which the report is shown to the user.
    pub fn display_name(self) -> (r: &'static str)
        ensures
            r@ == self.spec_display_name(),
    {
        match self {
            ReportKind::Payload => "Payload Domains",
            ReportKind::Amp => "AMP Report",
            ReportKind::C2 => "C2 Servers",
            ReportKind::Top100 => "Top 100",
            ReportKind::Hex => "Hex Report",
            ReportKind::Haus => "URLHaus Malware Downloads",
            ReportKind::Phish => "PhishTank",
        }
    }
}

/// All reports, in the order in which searches, statistics and history visit them.
pub open spec fn spec_all_reports() -> Seq<ReportKind> {
    seq![
        ReportKind::Payload,
        ReportKind::Amp,
        ReportKind::C2,
        ReportKind::Top100,
        ReportKind::Hex,
        ReportKind::Haus,
        ReportKind::Phish,
    ]
}

/// All reports, in the order in which searches, statistics and history visit them.
pub fn all_reports() -> (r: Vec<ReportKind>)
    ensures
        r@ == spec_all_reports(),
{
    let r = vec![
        ReportKind::Payload,
        ReportKind::Amp,
        ReportKind::C2,
        ReportKind::Top100,
        ReportKind::Hex,
        ReportKind::Haus,
        ReportKind::Phish,
    ];
    assert(r@ =~= spec_all_reports());
    r
}

/// A file or directory name made of ASCII letters, digits, dots, underscores and hyphens only.
pub open spec fn is_plain_name(n: Seq<char>) -> bool {
    &&& n.len() > 0
    &&& forall|i: int|
        0 <= i < n.len() ==> {
            let c = #[trigger] n[i];
            ('a' <= c && c <= 'z') || ('A' <= c && c <= 'Z') || ('0' <= c && c <= '9') || c == '.'
                || c == '_' || c == '-'
        }
}

/// Whether `base` starts with the Windows verbatim prefix `\\?\`.
pub open spec fn is_verbatim(base: Seq<char>) -> bool {
    base.len() >= 4 && base[0] == '\\' && base[1] == '\\' && base[2] == '?' && base[3] == '\\'
}

/// `r` is `base` followed by `name`, with at most one path separator between them.
pub open spec fn is_joined(r: Seq<char>, base: Seq<char>, name: Seq<char>) -> bool {
    ||| r == base + name
    ||| r == base + seq!['/'] + name
    ||| r == base + seq!['\\'] + name
}

/// Calls `std::path::Path::join`. For a plain relative name and a base that is not a Windows
/// verbatim path, the result is the base followed by the name, with the platform's separator
/// between them where the base does not already end in one. What `join` does to a verbatim
/// base (it normalises its components) is left unsaid.
#[verifier::external_body]
pub(crate) fn join_path(base: &str, name: &str) -> (r: String)
    requires
        is_plain_name(name@),
    ensures
        !is_verbatim(base@) ==> is_joined(r@, base@, name@),
{
    std::path::Path::new(base).join(name).to_string_lossy().into_owned()
}

/// The locations of the reports and auxiliary directories under one base directory.
#[derive(Debug, Clone)]
pub struct Paths {
    pub base_dir: String,
    pub payload_report: String,
    pub amp_report: String,
    pub c2_report: String,
    pub top_100: String,
    pub hex_report: String,
    pub haus_mal_down: String,
    pub phish_tank: String,
    pub updates_dir: String,
}

impl Paths {
    /// Where `Paths::new(base)` puts each file, for a base that is not a verbatim path.
    pub open spec fn laid_out_under(self, base: Seq<char>) -> bool {
        &&& self.base_dir@ == base
        &&& is_joined(self.payload_report@, base, "PayloadReport.txt"@)
        &&& is_joined(self.amp_report@, base, "AMPReport.txt"@)
        &&& is_joined(self.c2_report@, base, "C2Report.txt"@)
        &&& is_joined(self.top_100@, base, "Top100.txt"@)
        &&& is_joined(self.hex_report@, base, "HexReport.csv"@)
        &&& is_joined(self.haus_mal_down@, base, "HausMalDown.csv"@)
        &&& exists|dir: Seq<char>|
            is_joined(dir, base, "Phishing"@) && (!is_verbatim(dir) ==> is_joined(
                self.phish_tank@,
                dir,
                "PhishTank.csv"@,
            ))
        &&& is_joined(self.updates_dir@, base, "Updates"@)
    }

    /// Lays out the report files under `base_dir`.
    pub fn new(base_dir: String) -> (r: Paths)
        ensures
            r.base_dir@ == base_dir@,
            !is_verbatim(base_dir@) ==> r.laid_out_under(base_dir@),
    {
        proof {
            reveal_strlit("PayloadReport.txt");
            reveal_strlit("AMPReport.txt");
            reveal_strlit("C2Report.txt");
            reveal_strlit("Top100.txt");
            reveal_strlit("HexReport.csv");
            reveal_strlit("HausMalDown.csv");
            reveal_strlit("Phishing");
            reveal_strlit("PhishTank.csv");
            reveal_strlit("Updates");
        }
        let payload_report = join_path(base_dir.as_str(), "PayloadReport.txt");
        let amp_report = join_path(base_dir.as_str(), "AMPReport.txt");
        let c2_report = join_path(base_dir.as_str(), "C2Report.txt");
        let top_100 = join_path(base_dir.as_str(), "Top100.txt");
        let hex_report = join_path(base_dir.as_str(), "HexReport.csv");
        let haus_mal_down = join_path(base_dir.as_str(), "HausMalDown.csv");
        let phishing_dir = join_path(base_dir.as_str(), "Phishing");
        let phish_tank = join_path(phishing_dir.as_str(), "PhishTank.csv");
        let updates_dir = join_path(base_dir.as_str(), "Updates");
        Paths {
            base_dir,
            payload_report,
            amp_report,
            c2_report,
            top_100,
            hex_report,
            haus_mal_down,
            phish_tank,
            updates_dir,
        }
    }

    /// The location of report `kind`.
    pub open spec fn spec_report_path(self, kind: ReportKind) -> String {
        match kind {
            ReportKind::Payload => self.payload_report,
            ReportKind::Amp => self.amp_report,
            ReportKind::C2 => self.c2_report,
            ReportKind::Top100 => self.top_100,
            ReportKind::Hex => self.hex_report,
            ReportKind::Haus => self.haus_mal_down,
            ReportKind::Phish => self.phish_tank,
        }
    }

    /// The location of report `kind`.
    pub fn report_path(&self, kind: ReportKind) -> (r: &String)
        ensures
            *r == self.spec_report_path(kind),
    {
        match kind {
            ReportKind::Payload => &self.payload_report,
            ReportKind::Amp => &self.amp_report,
            ReportKind::C2 => &self.c2_report,
            ReportKind::Top100 => &self.top_100,
            ReportKind::Hex => &self.hex_report,
            ReportKind::Haus => &self.haus_mal_down,
            ReportKind::Phish => &self.phish_tank,
        }
    }
}

/// How the downloaded payload report is stored.
#[derive(Debug, Clone, Copy, PartialEq, Eq, Structural)]
pub enum PayloadOption {
    LeaveAsIs,
    Obfuscate,
    Zip,
    Both,
}

impl PayloadOption {
    /// The option a menu answer selects.
    pub open spec fn spec_from_choice(choice: Seq<char>) -> Option<PayloadOption> {
        if choice == "1"@ {
            Some(PayloadOption::LeaveAsIs)
        } else if choice == "2"@ {
            Some(PayloadOption::Obfuscate)
        } else if choice == "3"@ {
            Some(PayloadOption::Zip)
        } else if choice == "4"@ {
            Some(PayloadOption::Both)
        } else {
            None
        }
    }

    /// Reads a menu answer: "1" to "4" select an option, anything else none.
    pub fn from_choice(choice: &str) -> (r: Option<PayloadOption>)
        ensures
            r == Self::spec_from_choice(choice@),
    {
        if str_eq(choice, "1") {
            Some(PayloadOption::LeaveAsIs)
        } else if str_eq(choice, "2") {
            Some(PayloadOption::Obfuscate)
        } else if str_eq(choice, "3") {
            Some(PayloadOption::Zip)
        } else if str_eq(choice, "4") {
            Some(PayloadOption::Both)
        } else {
            None
        }
    }

    /// Whether the payload report is obfuscated (`http` written as `hxxp`).
    pub open spec fn spec_obfuscates(self) -> bool {
        self == PayloadOption::Obfuscate || self == PayloadOption::Both
    }
}

/// The address of the feed named `key`.
pub open spec fn spec_feed_url(key: Seq<char>) -> Option<Seq<char>> {
    if key == "payload_feed"@ {
        Some("https://urlhaus.abuse.ch/downloads/text/"@)
    } else if key == "c2_feed"@ {
        Some("http://cybercrime-tracker.net/all.php"@)
    } else if key == "hex_feed"@ {
        Some("https://raw.githubusercontent.com/Neo23x0/signature-base/master/iocs/hash-iocs.txt"@)
    } else if key == "phish_tank"@ {
        Some("https://data.phishtank.com/data/online-valid.csv"@)
    } else if key == "haus_mal_down"@ {
        Some("https://urlhaus.abuse.ch/downloads/csv/"@)
    } else {
        None
    }
}

/// Looks up the address of a built-in feed.
pub fn feed_url(key: &str) -> (r: Option<&'static str>)
    ensures
        r matches Some(u) ==> spec_feed_url(key@) == Some(u@),
        r is None ==> spec_feed_url(key@) is None,
{
    if str_eq(key, "payload_feed") {
        Some("https://urlhaus.abuse.ch/downloads/text/")
    } else if str_eq(key, "c2_feed") {
        Some("http://cybercrime-tracker.net/all.php")
    } else if str_eq(key, "hex_feed") {
        Some("https://raw.githubusercontent.com/Neo23x0/signature-base/master/iocs/hash-iocs.txt")
    } else if str_eq(key, "phish_tank") {
        Some("https://data.phishtank.com/data/online-valid.csv")
    } else if str_eq(key, "haus_mal_down") {
        Some("https://urlhaus.abuse.ch/downloads/csv/")
    } else {
        None
    }
}

/// One of the downloads a full scan makes before the payload feed.
#[derive(Debug, Clone)]
pub struct FullScanDownload {
    pub name: &'static str,
    pub feed_key: &'static str,
    pub kind: ReportKind,
    pub header: Option<&'static str>,
}

/// The banner written at the top of the C2 report before its feed is appended.
pub open spec fn c2_report_header() -> Seq<char> {
    "#############################################\n# C2 Servers Report sourced from http://cybercrime-tracker.net/ \n#############################################\n"@
}

/// The downloads of a full scan, in order: C2 servers, hashes, URLHaus downloads, PhishTank.
pub fn full_scan_downloads() -> (r: Vec<FullScanDownload>)
    ensures
        r@.len() == 4,
        r@[0].name@ == "C2 servers report"@ && r@[0].kind == ReportKind::C2 && r@[0].feed_key@
            == "c2_feed"@,
        r@[0].header matches Some(h) && h@ == c2_report_header(),
        r@[1].name@ == "Hex report"@ && r@[1].kind == ReportKind::Hex && r@[1].feed_key@
            == "hex_feed"@ && r@[1].header is None,
        r@[2].name@ == "URLHaus Malware downloads"@ && r@[2].kind == ReportKind::Haus
            && r@[2].feed_key@ == "haus_mal_down"@ && r@[2].header is None,
        r@[3].name@ == "PhishTank data"@ && r@[3].kind == ReportKind::Phish && r@[3].feed_key@
            == "phish_tank"@ && r@[3].header is None,
        forall|i: int| 0 <= i < 4 ==> spec_feed_url((#[trigger] r@[i]).feed_key@) is Some,
{
    let r = vec![
        FullScanDownload {
            name: "C2 servers report",
            feed_key: "c2_feed",
            kind: ReportKind::C2,
            header: Some(
                "#############################################\n# C2 Servers Report sourced from http://cybercrime-tracker.net/ \n#############################################\n",
            ),
        },
        FullScanDownload {
            name: "Hex report",
            feed_key: "hex_feed",
            kind: ReportKind::Hex,
            header: None,
        },
        FullScanDownload {
            name: "URLHaus Malware downloads",
            feed_key: "haus_mal_down",
            kind: ReportKind::Haus,
            header: None,
        },
        FullScanDownload {
            name: "PhishTank data",
            feed_key: "phish_tank",
            kind: ReportKind::Phish,
            header: None,
        },
    ];
    r
}

/// An entry of the numbered report menu.
#[derive(Debug, Clone)]
pub struct DirectoryItem {
    pub number: u8,
    pub name: &'static str,
    pub kind: ReportKind,
}

/// The numbered report menu: entry `i` has number `i + 1`, and typing that number at the
/// "which feed to open" prompt opens the entry's report.
pub fn directory_list_items() -> (r: Vec<DirectoryItem>)
    ensures
        r@.len() == 7,
        forall|i: int| 0 <= i < 7 ==> (#[trigger] r@[i]).number == i + 1,
        forall|i: int|
            0 <= i < 7 ==> numbered_report(crate::text::decimal((i + 1) as nat)) == Some(
                (#[trigger] r@[i]).kind,
            ),
        r@[0].name@ == "Payload Domains"@,
        r@[1].name@ == "AMP Report"@,
        r@[2].name@ == "C2 Servers"@,
        r@[3].name@ == "Hex Report"@,
        r@[4].name@ == "URLHaus Maldownloads"@,
        r@[5].name@ == "PhishTank Phishing Pages"@,
        r@[6].name@ == "Most Recent 100"@,
        r@[0].kind == ReportKind::Payload,
        r@[1].kind == ReportKind::Amp,
        r@[2].kind == ReportKind::C2,
        r@[3].kind == ReportKind::Hex,
        r@[4].kind == ReportKind::Haus,
        r@[5].kind == ReportKind::Phish,
        r@[6].kind == ReportKind::Top100,
{
    proof {
        reveal_strlit("1");
        reveal_strlit("2");
        reveal_strlit("3");
        reveal_strlit("4");
        reveal_strlit("5");
        reveal_strlit("6");
        reveal_strlit("7");
        assert(crate::text::decimal(1) =~= "1"@);
        assert(crate::text::decimal(2) =~= "2"@);
        assert(crate::text::decimal(3) =~= "3"@);
        assert(crate::text::decimal(4) =~= "4"@);
        assert(crate::text::decimal(5) =~= "5"@);
        assert(crate::text::decimal(6) =~= "6"@);
        assert(crate::text::decimal(7) =~= "7"@);
    }
    let r = vec![
        DirectoryItem { number: 1, name: "Payload Domains", kind: ReportKind::Payload },
        DirectoryItem { number: 2, name: "AMP Report", kind: ReportKind::Amp },
        DirectoryItem { number: 3, name: "C2 Servers", kind: ReportKind::C2 },
        DirectoryItem { number: 4, name: "Hex Report", kind: ReportKind::Hex },
        DirectoryItem { number: 5, name: "URLHaus Maldownloads", kind: ReportKind::Haus },
        DirectoryItem { number: 6, name: "PhishTank Phishing Pages", kind: ReportKind::Phish },
        DirectoryItem { number: 7, name: "Most Recent 100", kind: ReportKind::Top100 },
    ];
    proof {
        assert forall|i: int| 0 <= i < 7 implies numbered_report(crate::text::decimal((i + 1) as nat))
            == Some((#[trigger] r@[i]).kind) by {
            if i == 0 {
                assert(numbered_report("1"@) == Some(ReportKind::Payload));
            } else if i == 1 {
                assert("2"@[0] != "1"@[0]);
                assert(numbered_report("2"@) == Some(ReportKind::Amp));
            } else if i == 2 {
                assert("3"@[0] != "1"@[0] && "3"@[0] != "2"@[0]);
                assert(numbered_report("3"@) == Some(ReportKind::C2));
            } else if i == 3 {
                assert("4"@[0] != "1"@[0] && "4"@[0] != "2"@[0] && "4"@[0] != "3"@[0]);
                assert(numbered_report("4"@) == Some(ReportKind::Hex));
            } else if i == 4 {
                assert("5"@[0] != "1"@[0] && "5"@[0] != "2"@[0] && "5"@[0] != "3"@[0] && "5"@[0] != "4"@[0]);
                assert(numbered_report("5"@) == Some(ReportKind::Haus));
            } else if i == 5 {
                assert("6"@[0] != "1"@[0] && "6"@[0] != "2"@[0] && "6"@[0] != "3"@[0] && "6"@[0] != "4"@[0] && "6"@[0] != "5"@[0]);
                assert(numbered_report("6"@) == Some(ReportKind::Phish));
            } else {
                assert("7"@[0] != "1"@[0] && "7"@[0] != "2"@[0] && "7"@[0] != "3"@[0] && "7"@[0] != "4"@[0] && "7"@[0] != "5"@[0] && "7"@[0] != "6"@[0]);
                assert(numbered_report("7"@) == Some(ReportKind::Top100));
            }
        }
    }
    r
}

/// What an answer to the "which feed to open" prompt asks for.
#[derive(Debug, Clone, Copy, PartialEq, Eq, Structural)]
pub enum OpenChoice {
    Report(ReportKind),
    Home,
    Invalid,
}

/// The report of the numbered menu that a number designates.
pub open spec fn numbered_report(option: Seq<char>) -> Option<ReportKind> {
    if option == "1"@ {
        Some(ReportKind::Payload)
    } else if option == "2"@ {
        Some(ReportKind::Amp)
    } else if option == "3"@ {
        Some(ReportKind::C2)
    } else if option == "4"@ {
        Some(ReportKind::Hex)
    } else if option == "5"@ {
        Some(ReportKind::Haus)
    } else if option == "6"@ {
        Some(ReportKind::Phish)
    } else if option == "7"@ {
        Some(ReportKind::Top100)
    } else {
        None
    }
}

/// What an answer to the "which feed to open" prompt asks for: the report its number
/// designates, the home screen for `home` in any case, or nothing valid.
pub fn open_choice(option: &str) -> (r: OpenChoice)
    ensures
        match numbered_report(option@) {
            Some(k) => r == OpenChoice::Report(k),
            None => r == if crate::text::lowercase(option@) == "home"@ {
                OpenChoice::Home
            } else {
                OpenChoice::Invalid
            },
        },
{
    if str_eq(option, "1") {
        OpenChoice::Report(ReportKind::Payload)
    } else if str_eq(option, "2") {
        OpenChoice::Report(ReportKind::Amp)
    } else if str_eq(option, "3") {
        OpenChoice::Report(ReportKind::C2)
    } else if str_eq(option, "4") {
        OpenChoice::Report(ReportKind::Hex)
    } else if str_eq(option, "5") {
        OpenChoice::Report(ReportKind::Haus)
    } else if str_eq(option, "6") {
        OpenChoice::Report(ReportKind::Phish)
    } else if str_eq(option, "7") {
        OpenChoice::Report(ReportKind::Top100)
    } else {
        let lower = crate::text::to_lowercase(option);
        if str_eq(lower.as_str(), "home") {
            OpenChoice::Home
        } else {
            OpenChoice::Invalid
        }
    }
}

/// What an update needs: where the new release is and which version it is.
#[derive(Debug, Clone)]
pub struct UpdateInfo {
    pub new_script_path: String,
    pub temp_dir: String,
    pub backup_path: String,
    pub version: String,
    pub download_url: String,
}

} // verus!
