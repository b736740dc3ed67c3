//! The commands of the command line, as the library sees them.

use vstd::prelude::*;

verus! {

/// The command line: an optional command, the directory for the reports, and whether to run
/// without prompts.
#[derive(Debug)]
pub struct Cli {
    pub command: Option<Commands>,
    pub output_dir: Option<String>,
    pub non_interactive: bool,
}

/// The commands of the command line.
#[derive(Debug)]
#[allow(inconsistent_fields)]
pub enum Commands {
    QuickScan { output_dir: Option<String> },
    FullScan { output_dir: Option<String> },
    Stats,
    Search { term: String },
    Filter { feed_type: Option<String>, pattern: Option<String> },
    Export { format: String, report: String, output: Option<String> },
    Dedupe { output: Option<String> },
    Diff,
    Validate { report: String },
    Compare { report1: String, report2: String },
    Whitelist { command: WhitelistCommands },
    Feeds { command: FeedCommands },
}

/// The whitelist commands of the command line.
#[derive(Debug)]
pub enum WhitelistCommands {
    Add { indicator: String, reason: Option<String> },
    List,
    Remove { indicator: String },
}

/// The custom-feed commands of the command line.
#[derive(Debug)]
pub enum FeedCommands {
    Add { url: String, name: Option<String>, description: Option<String> },
    List,
    Remove { name_or_url: String },
}

} // verus!
