//! Completion of the interactive prompt's commands.

use vstd::prelude::*;
use vstd::string::*;
use crate::text::{lowercase, starts_with, string_views, to_lowercase, trim, trim_spec};

verus! {

/// The commands the prompt completes, with their aliases.
pub struct CommandCompleter {
    commands: Vec<String>,
}

/// The commands the prompt completes, in the order offered.
pub open spec fn completion_commands() -> Seq<Seq<char>> {
    seq![
        "full"@,
        "full-scan"@,
        "fscan"@,
        "quick"@,
        "quick-scan"@,
        "qscan"@,
        "help"@,
        "get-help"@,
        "?"@,
        "-?"@,
        "/?"@,
        "menu"@,
        "tutorial"@,
        "home"@,
        "back"@,
        "cd .."@,
        "clear"@,
        "clear-host"@,
        "cls"@,
        "open"@,
        "reopen"@,
        "quit"@,
        "exit"@,
        "install"@,
        "update"@,
        "stats"@,
        "search"@,
        "filter"@,
        "compare"@,
        "diff"@,
        "changes"@,
        "dedupe"@,
        "unique"@,
        "validate"@,
        "whitelist"@,
        "export"@,
        "feeds"@,
    ]
}

/// The commands offered for what was typed: all of them where the lowercased, trimmed input is
/// empty, else those whose lowercase starts with it, in order.
pub open spec fn completions(commands: Seq<Seq<char>>, typed: Seq<char>) -> Seq<Seq<char>>
    decreases commands.len(),
{
    if commands.len() == 0 {
        seq![]
    } else {
        let p = completions(commands.drop_last(), typed);
        let q = trim_spec(lowercase(typed));
        if q.len() == 0 || q.is_prefix_of(lowercase(commands.last())) {
            p.push(commands.last())
        } else {
            p
        }
    }
}

/// Completion offers commands only, in their order: each offer is one of the commands, and
/// an empty (or blank) input offers every command.
pub proof fn lemma_completions_are_commands(commands: Seq<Seq<char>>, typed: Seq<char>)
    ensures
        completions(commands, typed).len() <= commands.len(),
        forall|i: int|
            0 <= i < completions(commands, typed).len() ==> commands.contains(
                #[trigger] completions(commands, typed)[i],
            ),
        trim_spec(lowercase(typed)).len() == 0 ==> completions(commands, typed) == commands,
    decreases commands.len(),
{
    if commands.len() > 0 {
        let p = commands.drop_last();
        lemma_completions_are_commands(p, typed);
        let c = completions(commands, typed);
        assert forall|i: int| 0 <= i < c.len() implies commands.contains(#[trigger] c[i]) by {
            if i < completions(p, typed).len() {
                assert(c[i] == completions(p, typed)[i]);
                assert(p.contains(c[i]));
                let j = choose|j: int| 0 <= j < p.len() && p[j] == c[i];
                assert(commands[j] == c[i]);
            } else {
                assert(c[i] == commands.last());
                assert(commands[commands.len() - 1] == c[i]);
            }
        }
        if trim_spec(lowercase(typed)).len() == 0 {
            assert(commands =~= p.push(commands.last()));
        }
    }
}

impl View for CommandCompleter {
    type V = Seq<Seq<char>>;

    closed spec fn view(&self) -> Seq<Seq<char>> {
        string_views(self.commands@)
    }
}

impl CommandCompleter {
    /// The completer of the prompt's commands.
    pub fn new() -> (r: CommandCompleter)
        ensures
            r@ == completion_commands(),
    {
        let names = vec![
            "full", "full-scan", "fscan", "quick", "quick-scan", "qscan", "help", "get-help",
            "?", "-?", "/?", "menu", "tutorial", "home", "back", "cd ..", "clear", "clear-host",
            "cls", "open", "reopen", "quit", "exit", "install", "update", "stats", "search",
            "filter", "compare", "diff", "changes", "dedupe", "unique", "validate", "whitelist",
            "export", "feeds",
        ];
        let mut commands: Vec<String> = Vec::new();
        let mut i: usize = 0;
        while i < names.len()
            invariant
                i <= names@.len(),
                commands@.len() == i,
                forall|j: int| 0 <= j < i ==> (#[trigger] commands@[j])@ == names@[j]@,
            decreases names@.len() - i,
        {
            commands.push(names[i].to_string());
            i += 1;
        }
        let r = CommandCompleter { commands };
        assert(r@ =~= completion_commands());
        r
    }

    /// The commands to offer for what was typed.
    pub fn complete(&self, line: &str) -> (r: Vec<String>)
        ensures
            string_views(r@) == completions(self@, line@),
    {
        let lower = to_lowercase(line);
        let q = trim(lower.as_str());
        let ghost cs = self@;
        let mut out: Vec<String> = Vec::new();
        let mut i: usize = 0;
        assert(cs.take(0) =~= Seq::<Seq<char>>::empty());
        while i < self.commands.len()
            invariant
                i <= self.commands@.len(),
                cs == self@,
                cs == string_views(self.commands@),
                q@ == trim_spec(lowercase(line@)),
                string_views(out@) == completions(cs.take(i as int), line@),
            decreases self.commands@.len() - i,
        {
            proof {
                assert(cs.take(i + 1).drop_last() =~= cs.take(i as int));
                assert(cs.take(i + 1).last() == self.commands@[i as int]@);
            }
            let c = &self.commands[i];
            let keep = if q.unicode_len() == 0 {
                true
            } else {
                let cl = to_lowercase(c.as_str());
                starts_with(cl.as_str(), q)
            };
            if keep {
                let ghost before = out@;
                let item = c.clone();
                out.push(item);
                assert(string_views(out@) =~= string_views(before).push(item@));
            }
            i += 1;
        }
        assert(cs.take(self.commands@.len() as int) =~= cs);
        out
    }
}

} // verus!
