//! The help menu: its entries and the layout that lines their commands up in one column.

use vstd::prelude::*;
use vstd::string::*;
use vstd::utf8::{encode_utf8, is_ascii_chars, is_ascii_chars_encode_utf8};

verus! {

/// Length in bytes (UTF-8) of a text, the unit the menu is laid out in.
pub open spec fn byte_len(s: Seq<char>) -> nat {
    encode_utf8(s).len()
}

/// The menu entries as (description, commands) pairs of texts.
pub open spec fn entry_views(items: Seq<(String, String)>) -> Seq<(Seq<char>, Seq<char>)> {
    Seq::new(items.len(), |i: int| (items[i].0@, items[i].1@))
}

/// The length in bytes of the longest description; 0 for no entries.
pub open spec fn longest_description(items: Seq<(Seq<char>, Seq<char>)>) -> nat
    decreases items.len(),
{
    if items.len() == 0 {
        0
    } else {
        let m = longest_description(items.drop_last());
        let l = byte_len(items.last().0);
        if l > m {
            l
        } else {
            m
        }
    }
}

/// The column width the descriptions are padded to: two more than the longest description,
/// or 52 where there are no entries.
pub open spec fn menu_width(items: Seq<(Seq<char>, Seq<char>)>) -> nat {
    if items.len() == 0 {
        52
    } else {
        longest_description(items) + 2
    }
}

/// The spaces after a description of `len` bytes: up to `width`, or two where it is no shorter.
pub open spec fn padding(len: nat, width: nat) -> nat {
    if len < width {
        (width - len) as nat
    } else {
        2
    }
}

/// `n` spaces.
pub open spec fn spaces(n: nat) -> Seq<char> {
    Seq::new(n, |i: int| ' ')
}

/// One menu line: the bullet, the description, its padding, a space and the commands.
pub open spec fn menu_line(desc: Seq<char>, cmds: Seq<char>, width: nat) -> Seq<char> {
    "[*] "@ + desc + spaces(padding(byte_len(desc), width)) + " "@ + cmds
}

/// The help menu: (description, commands, the word of the description to highlight).
pub open spec fn help_menu_table() -> Seq<(Seq<char>, Seq<char>, Seq<char>)> {
    seq![
        ("Tutorial of how to use this tool"@, "TUTORIAL"@, "Tutorial"@),
        ("Show this Help Menu"@, "HELP,GET-HELP,?,-?,/?,MENU"@, "Help"@),
        ("Clear screen"@, "CLEAR,CLEAR-HOST,CLS"@, "Clear"@),
        ("Return to Home Menu"@, "HOME,BACK,CD .."@, "Home"@),
        ("Open an existing report"@, "OPEN,REOPEN"@, "Open"@),
        ("Quit malScraper"@, "QUIT,EXIT"@, "Quit"@),
        ("Install the latest update"@, "INSTALL,UPDATE"@, "Install"@),
        ("Perform Full-Scan (Note this may take some time)"@, "FULL,FULL-SCAN,FSCAN"@, "Full-Scan"@),
        (
            "Perform Quick-Scan (Most recent 100 Payload Domains)"@,
            "QUICK,QUICK-SCAN,QSCAN"@,
            "Quick-Scan"@,
        ),
        ("Show Statistics Dashboard"@, "STATS,STATISTICS,DASHBOARD"@, "Statistics"@),
        ("Search reports for a term"@, "SEARCH"@, "Search"@),
        ("Filter reports by feed type or pattern"@, "FILTER"@, "Filter"@),
        ("Export report to firewall/SIEM format"@, "EXPORT"@, "Export"@),
        ("Deduplicate all reports and create master list"@, "DEDUPE,UNIQUE"@, "Deduplicate"@),
        ("Compare current scan with previous scan"@, "DIFF,CHANGES"@, "Compare"@),
        ("Validate IP addresses and domains"@, "VALIDATE"@, "Validate"@),
        ("Compare two reports side-by-side"@, "COMPARE"@, "Compare"@),
        ("Manage whitelist (exclude false positives)"@, "WHITELIST"@, "whitelist"@),
        ("Manage custom feed URLs"@, "FEEDS"@, "feed"@),
    ]
}

/// The entries of the help menu, in the order shown.
pub fn help_menu_entries() -> (r: Vec<(String, String, String)>)
    ensures
        r@.len() == help_menu_table().len(),
        forall|i: int|
            0 <= i < r@.len() ==> ((#[trigger] r@[i]).0@, r@[i].1@, r@[i].2@) == help_menu_table()[i],
{
    let table: Vec<(&str, &str, &str)> = vec![
        ("Tutorial of how to use this tool", "TUTORIAL", "Tutorial"),
        ("Show this Help Menu", "HELP,GET-HELP,?,-?,/?,MENU", "Help"),
        ("Clear screen", "CLEAR,CLEAR-HOST,CLS", "Clear"),
        ("Return to Home Menu", "HOME,BACK,CD ..", "Home"),
        ("Open an existing report", "OPEN,REOPEN", "Open"),
        ("Quit malScraper", "QUIT,EXIT", "Quit"),
        ("Install the latest update", "INSTALL,UPDATE", "Install"),
        ("Perform Full-Scan (Note this may take some time)", "FULL,FULL-SCAN,FSCAN", "Full-Scan"),
        (
            "Perform Quick-Scan (Most recent 100 Payload Domains)",
            "QUICK,QUICK-SCAN,QSCAN",
            "Quick-Scan",
        ),
        ("Show Statistics Dashboard", "STATS,STATISTICS,DASHBOARD", "Statistics"),
        ("Search reports for a term", "SEARCH", "Search"),
        ("Filter reports by feed type or pattern", "FILTER", "Filter"),
        ("Export report to firewall/SIEM format", "EXPORT", "Export"),
        ("Deduplicate all reports and create master list", "DEDUPE,UNIQUE", "Deduplicate"),
        ("Compare current scan with previous scan", "DIFF,CHANGES", "Compare"),
        ("Validate IP addresses and domains", "VALIDATE", "Validate"),
        ("Compare two reports side-by-side", "COMPARE", "Compare"),
        ("Manage whitelist (exclude false positives)", "WHITELIST", "whitelist"),
        ("Manage custom feed URLs", "FEEDS", "feed"),
    ];
    assert(table@.len() == help_menu_table().len());
    let mut r: Vec<(String, String, String)> = Vec::new();
    let mut i: usize = 0;
    while i < table.len()
        invariant
            i <= table@.len(),
            table@.len() == help_menu_table().len(),
            forall|j: int|
                0 <= j < table@.len() ==> ((#[trigger] table@[j]).0@, table@[j].1@, table@[j].2@)
                    == help_menu_table()[j],
            r@.len() == i,
            forall|j: int|
                0 <= j < i ==> ((#[trigger] r@[j]).0@, r@[j].1@, r@[j].2@) == help_menu_table()[j],
        decreases table@.len() - i,
    {
        let (d, c, h) = table[i];
        r.push((d.to_string(), c.to_string(), h.to_string()));
        i += 1;
    }
    r
}

/// The length in bytes of a text.
fn text_bytes(s: &String) -> (n: usize)
    ensures
        n == byte_len(s@),
{
    s.as_str().as_bytes().len()
}

/// The column width of the help menu: two more than its longest description (in bytes), or
/// 52 for an empty menu.
pub fn help_menu_width(items: &Vec<(String, String)>) -> (w: usize)
    requires
        forall|i: int| 0 <= i < items@.len() ==> byte_len((#[trigger] items@[i]).0@) + 2 <= usize::MAX,
    ensures
        w == menu_width(entry_views(items@)),
{
    let ghost e = entry_views(items@);
    if items.len() == 0 {
        return 52;
    }
    let mut m: usize = 0;
    let mut k: usize = 0;
    while k < items.len()
        invariant
            k <= items@.len(),
            e == entry_views(items@),
            m == longest_description(e.take(k as int)),
            m + 2 <= usize::MAX,
            forall|i: int| 0 <= i < items@.len() ==> byte_len((#[trigger] items@[i]).0@) + 2 <= usize::MAX,
        decreases items@.len() - k,
    {
        proof {
            assert(e.take(k + 1).drop_last() =~= e.take(k as int));
            assert(e.take(k + 1).last() == e[k as int]);
        }
        let l = text_bytes(&items[k].0);
        if l > m {
            m = l;
        }
        k += 1;
    }
    assert(e.take(items@.len() as int) =~= e);
    m + 2
}

/// The spaces that follow a description of `desc_len` bytes in a menu of the given width.
pub fn menu_padding(desc_len: usize, width: usize) -> (p: usize)
    ensures
        p == padding(desc_len as nat, width as nat),
{
    if desc_len < width {
        width - desc_len
    } else {
        2
    }
}

fn push_spaces(s: &mut String, n: usize)
    ensures
        final(s)@ == old(s)@ + spaces(n as nat),
{
    let mut k: usize = 0;
    while k < n
        invariant
            k <= n,
            s@ == old(s)@ + spaces(k as nat),
        decreases n - k,
    {
        s.append(" ");
        proof {
            reveal_strlit(" ");
            assert(s@ =~= old(s)@ + spaces((k + 1) as nat));
        }
        k += 1;
    }
}

/// Every description is shorter than the menu width, so it is padded up to that width.
pub proof fn lemma_descriptions_fit(items: Seq<(Seq<char>, Seq<char>)>, i: int)
    requires
        0 <= i < items.len(),
    ensures
        byte_len(items[i].0) <= longest_description(items),
        byte_len(items[i].0) < menu_width(items),
        byte_len(items[i].0) + padding(byte_len(items[i].0), menu_width(items)) == menu_width(items),
    decreases items.len(),
{
    if i < items.len() - 1 {
        lemma_descriptions_fit(items.drop_last(), i);
        assert(items.drop_last()[i] == items[i]);
    }
}

/// The lines of the help menu: each its bullet, description, padding, a space and commands.
/// Every description is padded up to the same width, so the commands start in one column: at
/// byte `width + 5`, and, where the description is ASCII, at character `width + 5`.
pub fn help_menu_lines(items: &Vec<(String, String)>) -> (r: Vec<String>)
    requires
        forall|i: int| 0 <= i < items@.len() ==> byte_len((#[trigger] items@[i]).0@) + 2 <= usize::MAX,
    ensures
        r@.len() == items@.len(),
        forall|i: int|
            0 <= i < items@.len() ==> (#[trigger] r@[i])@ == menu_line(
                items@[i].0@,
                items@[i].1@,
                menu_width(entry_views(items@)),
            ),
        forall|i: int|
            0 <= i < items@.len() ==> byte_len(items@[i].0@) + padding(
                byte_len(#[trigger] items@[i].0@),
                menu_width(entry_views(items@)),
            ) == menu_width(entry_views(items@)),
        forall|i: int|
            0 <= i < items@.len() && is_ascii_chars(items@[i].0@) ==> (#[trigger] r@[i])@.skip(
                menu_width(entry_views(items@)) as int + 5,
            ) == items@[i].1@,
{
    let ghost e = entry_views(items@);
    let width = help_menu_width(items);
    let mut r: Vec<String> = Vec::new();
    let mut k: usize = 0;
    while k < items.len()
        invariant
            k <= items@.len(),
            e == entry_views(items@),
            width == menu_width(e),
            r@.len() == k,
            forall|i: int|
                0 <= i < k ==> (#[trigger] r@[i])@ == menu_line(items@[i].0@, items@[i].1@, width as nat),
        decreases items@.len() - k,
    {
        let desc = &items[k].0;
        let cmds = &items[k].1;
        let pad = menu_padding(text_bytes(desc), width);
        let mut line = String::new();
        line.append("[*] ");
        line.append(desc.as_str());
        push_spaces(&mut line, pad);
        line.append(" ");
        line.append(cmds.as_str());
        proof {
            reveal_strlit("[*] ");
            reveal_strlit(" ");
            assert(line@ =~= menu_line(desc@, cmds@, width as nat));
        }
        r.push(line);
        k += 1;
    }
    proof {
        assert forall|i: int| 0 <= i < items@.len() implies byte_len(items@[i].0@) + padding(
            byte_len(#[trigger] items@[i].0@),
            menu_width(e),
        ) == menu_width(e) by {
            lemma_descriptions_fit(e, i);
        }
        assert forall|i: int|
            0 <= i < items@.len() && is_ascii_chars(items@[i].0@) implies (#[trigger] r@[i])@.skip(
            menu_width(e) as int + 5,
        ) == items@[i].1@ by {
            lemma_descriptions_fit(e, i);
            is_ascii_chars_encode_utf8(items@[i].0@);
            reveal_strlit("[*] ");
            reveal_strlit(" ");
            let d = items@[i].0@;
            let sp = spaces(padding(byte_len(d), width as nat));
            assert(r@[i]@ =~= ("[*] "@ + d + sp + " "@) + items@[i].1@);
            assert(r@[i]@.skip(menu_width(e) as int + 5) =~= items@[i].1@);
        }
    }
    r
}

} // verus!
