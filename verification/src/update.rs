//! The decisions of the update check: when to ask, what the latest release is, and which of its
//! files fits this machine.

use vstd::prelude::*;
use vstd::string::*;
use crate::config::UpdateInfo;
use crate::text::{contains_str, occurs_in, split_lines, str_eq, text_lines, views};
use crate::utils::{clean_version, semver_greater, is_newer_version, strip_leading, trim_start_char};

verus! {

/// Seconds between two automatic update checks: one day.
pub const UPDATE_CHECK_INTERVAL_SECS: u64 = 86400;

/// One file of a release, as the release description lists it.
#[derive(Debug)]
pub struct ReleaseAsset {
    pub name: Option<String>,
    pub browser_download_url: Option<String>,
}

/// What the update check found in the latest release.
#[derive(Debug)]
pub enum UpdateDecision {
    /// The running version is the latest.
    UpToDate,
    /// A newer version is out; the first lines of its release notes, and whether there are more.
    Newer { version: String, notes: Vec<String>, more_notes: bool },
}

/// Whether the update check is due: where no check is on record, where its age cannot be told,
/// or where the last one is at least a day old.
pub open spec fn check_due(marker_exists: bool, elapsed_secs: Option<u64>) -> bool {
    !marker_exists || match elapsed_secs {
        Some(e) => e >= UPDATE_CHECK_INTERVAL_SECS,
        None => true,
    }
}

/// The version a release tag names: the tag without leading `v`s, or `0.0.0` without a tag.
pub open spec fn tag_version(tag: Option<Seq<char>>) -> Seq<char> {
    match tag {
        Some(t) => strip_leading(t, 'v'),
        None => "0.0.0"@,
    }
}

/// The release-file name fragments that fit an operating system and architecture, in order of
/// preference.
pub open spec fn platform_patterns(os: Seq<char>, arch: Seq<char>) -> Seq<Seq<char>> {
    if os == "windows"@ && arch == "x86_64"@ {
        seq!["x86_64-pc-windows-msvc.exe"@, "windows-x86_64.exe"@]
    } else if os == "linux"@ && arch == "x86_64"@ {
        seq!["x86_64-unknown-linux-gnu"@, "linux-x86_64"@]
    } else if os == "linux"@ && arch == "aarch64"@ {
        seq!["aarch64-unknown-linux-gnu"@, "linux-aarch64"@]
    } else if (os == "macos"@ || os == "darwin"@) && arch == "x86_64"@ {
        seq!["x86_64-apple-darwin"@, "macos-x86_64"@]
    } else if (os == "macos"@ || os == "darwin"@) && arch == "aarch64"@ {
        seq!["aarch64-apple-darwin"@, "macos-aarch64"@]
    } else {
        seq![]
    }
}

/// Whether a release file with this name is a binary for one of the patterns: it names one of
/// them and is no checksum file.
pub open spec fn fits(name: Seq<char>, patterns: Seq<Seq<char>>) -> bool {
    &&& exists|j: int| 0 <= j < patterns.len() && occurs_in(#[trigger] patterns[j], name)
    &&& !".sha256"@.is_suffix_of(name)
    &&& !occurs_in("checksum"@, name)
}

/// Whether a release file is a downloadable binary for the patterns.
pub open spec fn usable(a: ReleaseAsset, patterns: Seq<Seq<char>>) -> bool {
    &&& a.name matches Some(n) && fits(n@, patterns)
    &&& a.browser_download_url is Some
}

/// The download address of the first release file that is a binary for the patterns.
pub open spec fn first_usable(assets: Seq<ReleaseAsset>, patterns: Seq<Seq<char>>) -> Option<int>
    decreases assets.len(),
{
    if assets.len() == 0 {
        None
    } else if usable(assets[0], patterns) {
        Some(0)
    } else {
        match first_usable(assets.drop_first(), patterns) {
            Some(i) => Some(i + 1),
            None => None,
        }
    }
}

/// The progress of a download in percent, where its size is known.
pub open spec fn percent(downloaded: u64, total: u64) -> Option<u64> {
    if total > 0 {
        Some(((downloaded * 100) / (total as int)) as u64)
    } else {
        None
    }
}

pub struct UpdateChecker;

/// Whether `name` ends with `suffix`.
fn ends_with(name: &str, suffix: &str) -> (r: bool)
    ensures
        r == suffix@.is_suffix_of(name@),
{
    let n = name.unicode_len();
    let m = suffix.unicode_len();
    if m > n {
        return false;
    }
    let tail = name.substring_char(n - m, n);
    let r = str_eq(tail, suffix);
    proof {
        assert(tail@ =~= name@.subrange(n - m, n as int));
    }
    r
}

/// Whether one of the patterns occurs in `name`.
fn names_any(name: &str, patterns: &Vec<&str>) -> (r: bool)
    ensures
        r == exists|j: int| 0 <= j < patterns@.len() && occurs_in(#[trigger] views(patterns@)[j], name@),
{
    let mut j: usize = 0;
    while j < patterns.len()
        invariant
            j <= patterns@.len(),
            forall|k: int| 0 <= k < j ==> !occurs_in(#[trigger] views(patterns@)[k], name@),
        decreases patterns@.len() - j,
    {
        if contains_str(name, patterns[j]) {
            assert(occurs_in(views(patterns@)[j as int], name@));
            return true;
        }
        j += 1;
    }
    false
}

impl UpdateChecker {
    /// Whether the automatic update check is due. `marker_exists` tells whether a check is on
    /// record; `elapsed_secs` how long ago it was, where that can be told.
    pub fn should_check_for_updates(marker_exists: bool, elapsed_secs: Option<u64>) -> (r: bool)
        ensures
            r == check_due(marker_exists, elapsed_secs),
    {
        if !marker_exists {
            return true;
        }
        match elapsed_secs {
            Some(e) => e >= UPDATE_CHECK_INTERVAL_SECS,
            None => true,
        }
    }

    /// The version a release tag names.
    pub fn latest_version(tag: Option<&str>) -> (r: String)
        ensures
            r@ == tag_version(
                match tag {
                    Some(t) => Some(t@),
                    None => None,
                },
            ),
    {
        match tag {
            Some(t) => trim_start_char(t, 'v').to_string(),
            None => "0.0.0".to_string(),
        }
    }

    /// What the latest release means for the running version: up to date unless its version
    /// is newer, and then the first five lines of its notes and whether it has more.
    pub fn assess_release(current_version: &str, tag: Option<&str>, body: Option<&str>) -> (r:
        UpdateDecision)
        ensures
            ({
                let latest = tag_version(
                    match tag {
                        Some(t) => Some(t@),
                        None => None,
                    },
                );
                if semver_greater(clean_version(current_version@), clean_version(latest))
                    == Some(true) {
                    r matches UpdateDecision::Newer { version, notes, more_notes } && version@
                        == latest && match body {
                        Some(b) => {
                            let ls = text_lines(b@);
                            &&& views_of(notes@) == ls.take(if ls.len() < 5 {
                                ls.len() as int
                            } else {
                                5
                            })
                            &&& more_notes == (ls.len() > 5)
                        },
                        None => notes@.len() == 0 && !more_notes,
                    }
                } else {
                    r matches UpdateDecision::UpToDate
                }
            }),
    {
        let latest = UpdateChecker::latest_version(tag);
        if !is_newer_version(current_version, latest.as_str()) {
            return UpdateDecision::UpToDate;
        }
        let mut notes: Vec<String> = Vec::new();
        let mut more = false;
        match body {
            Some(b) => {
                let lines = split_lines(b);
                let ghost ls = text_lines(b@);
                let mut i: usize = 0;
                while i < lines.len() && i < 5
                    invariant
                        i <= lines@.len(),
                        i <= 5,
                        views(lines@) == ls,
                        views_of(notes@) == ls.take(i as int),
                    decreases lines@.len() - i,
                {
                    let ghost before = notes@;
                    notes.push(lines[i].to_string());
                    proof {
                        assert(views_of(notes@) =~= views_of(before).push(lines@[i as int]@));
                        assert(ls.take(i + 1) =~= ls.take(i as int).push(ls[i as int]));
                    }
                    i += 1;
                }
                more = lines.len() > 5;
            },
            None => {},
        }
        UpdateDecision::Newer { version: latest, notes, more_notes: more }
    }

    /// The download address of the first release file that is a binary for this operating
    /// system and architecture, with that file's name.
    pub fn find_platform_binary(assets: &Vec<ReleaseAsset>, os: &str, arch: &str) -> (r: Option<
        (String, String),
    >)
        ensures
            match first_usable(assets@, platform_patterns(os@, arch@)) {
                Some(i) => r matches Some(p) && holds(assets@[i].name, p.0) && holds(
                    assets@[i].browser_download_url,
                    p.1,
                ),
                None => r is None,
            },
    {
        let patterns = UpdateChecker::platform_patterns(os, arch);
        let ghost ps = platform_patterns(os@, arch@);
        proof {
            reveal_strlit(".sha256");
            reveal_strlit("checksum");
        }
        let mut i: usize = 0;
        assert(assets@.skip(0) =~= assets@);
        while i < assets.len()
            invariant
                i <= assets@.len(),
                views(patterns@) == ps,
                ps == platform_patterns(os@, arch@),
                first_usable(assets@, ps) == match first_usable(assets@.skip(i as int), ps) {
                    Some(j) => Some(j + i),
                    None => None::<int>,
                },
            decreases assets@.len() - i,
        {
            let a = &assets[i];
            proof {
                assert(assets@.skip(i as int)[0] == assets@[i as int]);
                assert(assets@.skip(i as int).drop_first() =~= assets@.skip(i + 1));
            }
            match (&a.name, &a.browser_download_url) {
                (Some(n), Some(u)) => {
                    if names_any(n.as_str(), &patterns) && !ends_with(n.as_str(), ".sha256")
                        && !contains_str(n.as_str(), "checksum") {
                        let name = n.clone();
                        let url = u.clone();
                        proof {
                            assert(usable(assets@[i as int], ps));
                            assert(first_usable(assets@.skip(i as int), ps) == Some(0int));
                            assert(first_usable(assets@, ps) == Some(i as int));

                        }
                        return Some((name, url));
                    }
                },
                _ => {},
            }
            i += 1;
        }
        None
    }

    /// The release-file name fragments that fit an operating system and architecture.
    pub fn platform_patterns(os: &str, arch: &str) -> (r: Vec<&'static str>)
        ensures
            views(r@) == platform_patterns(os@, arch@),
    {
        let r = if str_eq(os, "windows") && str_eq(arch, "x86_64") {
            vec!["x86_64-pc-windows-msvc.exe", "windows-x86_64.exe"]
        } else if str_eq(os, "linux") && str_eq(arch, "x86_64") {
            vec!["x86_64-unknown-linux-gnu", "linux-x86_64"]
        } else if str_eq(os, "linux") && str_eq(arch, "aarch64") {
            vec!["aarch64-unknown-linux-gnu", "linux-aarch64"]
        } else if (str_eq(os, "macos") || str_eq(os, "darwin")) && str_eq(arch, "x86_64") {
            vec!["x86_64-apple-darwin", "macos-x86_64"]
        } else if (str_eq(os, "macos") || str_eq(os, "darwin")) && str_eq(arch, "aarch64") {
            vec!["aarch64-apple-darwin", "macos-aarch64"]
        } else {
            Vec::new()
        };
        assert(views(r@) =~= platform_patterns(os@, arch@));
        r
    }

    /// The update to install: the latest version and where its binary is.
    pub fn update_info(version: String, download_url: String) -> (r: UpdateInfo)
        ensures
            r.version@ == version@,
            r.download_url@ == download_url@,
            r.new_script_path@.len() == 0,
            r.temp_dir@.len() == 0,
            r.backup_path@.len() == 0,
    {
        UpdateInfo {
            new_script_path: String::new(),
            temp_dir: String::new(),
            backup_path: String::new(),
            version,
            download_url,
        }
    }

    /// The progress of a download in percent, where its size is known.
    pub fn progress_percent(downloaded: u64, total: u64) -> (r: Option<u64>)
        requires
            downloaded * 100 <= u64::MAX,
        ensures
            r == percent(downloaded, total),
    {
        if total > 0 {
            Some((downloaded * 100) / total)
        } else {
            None
        }
    }
}

/// Whether an optional string holds the text of `s`.
pub open spec fn holds(o: Option<String>, s: String) -> bool {
    match o {
        Some(x) => x@ == s@,
        None => false,
    }
}

/// The views of owned strings.
pub open spec fn views_of(v: Seq<String>) -> Seq<Seq<char>> {
    v.map_values(|s: String| s@)
}

} // verus!
