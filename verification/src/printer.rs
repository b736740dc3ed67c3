//! The bullet that starts each menu line.

use vstd::prelude::*;
use vstd::string::*;
use colored::Colorize;
use crate::text::{find_str, first_at, occurs_in, replace_all, replace_spec, trim, trim_spec};

verus! {

pub struct Printer;

/// The terminal's reset escape.
pub open spec fn reset_escape() -> Seq<char> {
    "\u{1b}[0m"@
}

/// `text` in the style that `colored` writes with the escape `style`: the style, the text with
/// the style repeated after each reset escape it holds, then a reset.
pub open spec fn styled(text: Seq<char>, style: Seq<char>) -> Seq<char> {
    style + replace_spec(text, reset_escape(), reset_escape() + style) + reset_escape()
}

/// Formats `text` in bold with `colored`'s `bold`. Whether the terminal escapes are written
/// depends on the environment (`CLICOLOR`, `NO_COLOR`, `CLICOLOR_FORCE`, whether the output is a
/// terminal), so either the plain text or the styled text comes back; which one is left open.
#[verifier::external_body]
fn bold(text: &str) -> (r: String)
    ensures
        r@ == text@ || r@ == styled(text@, "\u{1b}[1m"@),
{
    format!("{}", text.bold())
}

/// Formats `text` in bold cyan with `colored`'s `cyan` and `bold`. As with `bold`, the
/// environment decides whether the escapes are written: either the plain text or the styled
/// text comes back; which one is left open.
#[verifier::external_body]
fn cyan_bold(text: &str) -> (r: String)
    ensures
        r@ == text@ || r@ == styled(text@, "\u{1b}[1;36m"@),
{
    format!("{}", text.cyan().bold())
}

/// `rep` before each character of `s` and after the last: what replacing the empty text gives.
pub open spec fn around_each(s: Seq<char>, rep: Seq<char>) -> Seq<char>
    decreases s.len(),
{
    if s.len() == 0 {
        rep
    } else {
        around_each(s.drop_last(), rep) + seq![s.last()] + rep
    }
}

/// Every occurrence of `h` in `d` replaced by `st`; for an empty `h`, `st` around each character.
pub open spec fn replace_text(d: Seq<char>, h: Seq<char>, st: Seq<char>) -> Seq<char> {
    if h.len() == 0 {
        around_each(d, st)
    } else {
        replace_spec(d, h, st)
    }
}

fn put_around_each(s: &str, rep: &str) -> (r: String)
    ensures
        r@ == around_each(s@, rep@),
{
    let n = s.unicode_len();
    let mut out = String::new();
    out.append(rep);
    let mut i: usize = 0;
    while i < n
        invariant
            i <= n,
            n == s@.len(),
            out@ == around_each(s@.take(i as int), rep@),
        decreases n - i,
    {
        let c = s.substring_char(i, i + 1);
        proof {
            assert(s@.take(i + 1).drop_last() =~= s@.take(i as int));
            assert(c@ =~= seq![s@.take(i + 1).last()]);
        }
        out.append(c);
        out.append(rep);
        i += 1;
    }
    assert(s@.take(n as int) =~= s@);
    out
}

impl Printer {
    /// A menu description with each occurrence of `highlight` shown in bold cyan where the
    /// terminal shows colours (plain otherwise), as `str::replace` puts it; without a highlight,
    /// the description itself.
    pub fn highlighted(description: &str, highlight: Option<&str>) -> (r: String)
        ensures
            match highlight {
                None => r@ == description@,
                Some(h) => r@ == replace_text(description@, h@, h@) || r@ == replace_text(
                    description@,
                    h@,
                    styled(h@, "\u{1b}[1;36m"@),
                ),
            },
    {
        match highlight {
            None => description.to_string(),
            Some(h) => {
                let st = cyan_bold(h);
                if h.unicode_len() == 0 {
                    put_around_each(description, st.as_str())
                } else {
                    replace_all(description, h, st.as_str())
                }
            },
        }
    }

    /// The parts a header is shown in: the text before the first separator and the text after
    /// it, both trimmed; `None` where the text holds no separator.
    pub fn header_parts(text: &str, separator: &str) -> (r: Option<(String, String)>)
        ensures
            match r {
                None => !occurs_in(separator@, text@),
                Some(p) => exists|k: int|
                    first_at(separator@, text@, k) && p.0@ == trim_spec(text@.take(k)) && p.1@
                        == trim_spec(text@.skip(k + separator@.len())),
            },
    {
        match find_str(text, separator) {
            None => None,
            Some(k) => {
                let n = text.unicode_len();
                let m = separator.unicode_len();
                proof {
                    assert(separator@.is_prefix_of(text@.skip(k as int)));
                }
                let left = text.substring_char(0, k);
                let right = text.substring_char(k + m, n);
                proof {
                    assert(left@ =~= text@.take(k as int));
                    assert(right@ =~= text@.skip(k + m));
                }
                Some((trim(left).to_string(), trim(right).to_string()))
            },
        }
    }

    /// The bullet `[*]`, in bold where the terminal shows colours.
    pub fn bullet() -> (r: String)
        ensures
            r@ == "[*]"@ || r@ == "\u{1b}[1m[*]\u{1b}[0m"@,
    {
        proof {
            reveal_strlit("[*]");
            reveal_strlit("\u{1b}[0m");
            reveal_strlit("\u{1b}[1m");
            reveal_strlit("\u{1b}[1m[*]\u{1b}[0m");
            assert forall|k: int| 0 <= k <= "[*]"@.len() implies !#[trigger] "\u{1b}[0m"@.is_prefix_of(
                "[*]"@.skip(k),
            ) by {}
            crate::text::lemma_replace_absent("[*]"@, reset_escape(), reset_escape() + "\u{1b}[1m"@);
            assert("\u{1b}[1m"@ + "[*]"@ + "\u{1b}[0m"@ =~= "\u{1b}[1m[*]\u{1b}[0m"@);
        }
        bold("[*]")
    }
}

} // verus!
