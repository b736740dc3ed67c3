//! What a downloaded payload feed becomes: its line count, its obfuscated form, the AMP and
//! top-100 reports derived from it, and checksums of report files.

use vstd::prelude::*;
use vstd::string::*;
use sha2::Digest;
use crate::config::{PayloadOption, TOP_DOMAINS_COUNT};
use crate::patterns::{first_capture, first_group, HTTP_HOST_PATTERN};
use crate::text::{
    ascii_lower_char, count_char, count_occurrences, is_ascii_seq, lemma_split_char_len,
    lowercase, occurs_in, replace_all, replace_spec, string_views, text_lines, to_lowercase, trim,
    trim_spec,
};

verus! {

/// The number of lines `str::lines` yields: one per line feed, and one more for a last line
/// that does not end in a line feed.
pub open spec fn line_count(s: Seq<char>) -> nat {
    count_char(s, '\n') + if s.len() > 0 && s.last() != '\n' {
        1nat
    } else {
        0nat
    }
}

/// The line count of a text is the number of lines `str::lines` yields for it.
pub proof fn lemma_line_count_is_lines(s: Seq<char>)
    ensures
        line_count(s) == text_lines(s).len(),
{
    lemma_split_char_len(s, '\n');
}

/// The payload feed as stored: with `http` written `hxxp` where the option obfuscates.
pub open spec fn stored_payload(data: Seq<char>, option: PayloadOption) -> Seq<char> {
    if option.spec_obfuscates() {
        replace_spec(data, "http"@, "hxxp"@)
    } else {
        data
    }
}

/// One step of the obfuscation: a text starting with `http` starts with `h` again, any other
/// text keeps its first character and goes on with the rest.
proof fn lemma_obfuscation_head(t: Seq<char>)
    requires
        t.len() > 0,
    ensures
        replace_spec(t, "http"@, "hxxp"@).len() > 0,
        "http"@.is_prefix_of(t) ==> replace_spec(t, "http"@, "hxxp"@)[0] == 'h',
        !"http"@.is_prefix_of(t) ==> replace_spec(t, "http"@, "hxxp"@) == seq![t[0]] + replace_spec(
            t.drop_first(),
            "http"@,
            "hxxp"@,
        ),
{
    reveal_strlit("http");
    reveal_strlit("hxxp");
}

/// A prefix agrees with the text at each of its positions.
proof fn lemma_prefix_at(p: Seq<char>, x: Seq<char>, j: int)
    requires
        0 <= j < p.len(),
    ensures
        p.is_prefix_of(x) ==> x.len() > j && x[j] == p[j],
{
    if p.is_prefix_of(x) {
        assert(x.subrange(0, p.len() as int)[j] == x[j]);
    }
}

/// Where the obfuscated text starts with `ttp`, the text did too.
proof fn lemma_obfuscation_ttp(t: Seq<char>)
    requires
        replace_spec(t, "http"@, "hxxp"@).len() >= 3,
        replace_spec(t, "http"@, "hxxp"@)[0] == 't',
        replace_spec(t, "http"@, "hxxp"@)[1] == 't',
        replace_spec(t, "http"@, "hxxp"@)[2] == 'p',
    ensures
        t.len() >= 3 && t[0] == 't' && t[1] == 't' && t[2] == 'p',
{
    reveal_strlit("http");
    reveal_strlit("hxxp");
    let r0 = replace_spec(t, "http"@, "hxxp"@);
    assert(t.len() > 0) by {
        if t.len() == 0 {
            assert(r0.len() == 0);
        }
    }
    lemma_obfuscation_head(t);
    let t1 = t.drop_first();
    let r1 = replace_spec(t1, "http"@, "hxxp"@);
    assert(r0 == seq![t[0]] + r1);
    assert(r1.len() >= 2 && r1[0] == 't' && r1[1] == 'p');
    assert(t1.len() > 0) by {
        if t1.len() == 0 {
            assert(r1.len() == 0);
        }
    }
    lemma_obfuscation_head(t1);
    let t2 = t1.drop_first();
    let r2 = replace_spec(t2, "http"@, "hxxp"@);
    assert(r1 == seq![t1[0]] + r2);
    assert(r2.len() >= 1 && r2[0] == 'p');
    assert(t2.len() > 0) by {
        if t2.len() == 0 {
            assert(r2.len() == 0);
        }
    }
    lemma_obfuscation_head(t2);
    assert(r2 == seq![t2[0]] + replace_spec(t2.drop_first(), "http"@, "hxxp"@));
}

/// An obfuscated payload holds no `http` at all: every one became `hxxp`, and none is formed
/// anew.
pub proof fn lemma_obfuscated_has_no_http(s: Seq<char>)
    ensures
        !occurs_in("http"@, replace_spec(s, "http"@, "hxxp"@)),
    decreases s.len(),
{
    reveal_strlit("http");
    reveal_strlit("hxxp");
    let r = replace_spec(s, "http"@, "hxxp"@);
    if s.len() == 0 {
        assert(r.len() == 0);
        assert forall|k: int| 0 <= k <= r.len() implies !#[trigger] "http"@.is_prefix_of(r.skip(k)) by {
            assert(r.skip(k).len() == 0);
        }
    } else if "http"@.is_prefix_of(s) {
        let rest = s.skip(4);
        lemma_obfuscated_has_no_http(rest);
        let rr = replace_spec(rest, "http"@, "hxxp"@);
        assert(r == "hxxp"@ + rr);
        assert forall|k: int| 0 <= k <= r.len() implies !#[trigger] "http"@.is_prefix_of(r.skip(k)) by {
            if k >= 4 {
                assert(r.skip(k) =~= rr.skip(k - 4));
            } else if k == 0 {
                lemma_prefix_at("http"@, r.skip(k), 1);
                assert(r.skip(k)[1] == 'x');
            } else if k == 3 {
                lemma_prefix_at("http"@, r.skip(k), 0);
                assert(r.skip(k)[0] == 'p');
            } else {
                lemma_prefix_at("http"@, r.skip(k), 0);
                assert(r.skip(k)[0] == 'x');
            }
        }
    } else {
        let rest = s.drop_first();
        lemma_obfuscated_has_no_http(rest);
        lemma_obfuscation_head(s);
        let rr = replace_spec(rest, "http"@, "hxxp"@);
        assert(r == seq![s[0]] + rr);
        assert forall|k: int| 0 <= k <= r.len() implies !#[trigger] "http"@.is_prefix_of(r.skip(k)) by {
            if k >= 1 {
                assert(r.skip(k) =~= rr.skip(k - 1));
            } else if "http"@.is_prefix_of(r) {
                assert(r.skip(0) =~= r);
                lemma_prefix_at("http"@, r, 0);
                lemma_prefix_at("http"@, r, 1);
                lemma_prefix_at("http"@, r, 2);
                lemma_prefix_at("http"@, r, 3);
                assert(r[0] == 'h');
                assert(rr.len() >= 3 && rr[0] == 't' && rr[1] == 't' && rr[2] == 'p') by {
                    assert(r[1] == rr[0]);
                    assert(r[2] == rr[1]);
                    assert(r[3] == rr[2]);
                }
                lemma_obfuscation_ttp(rest);
                assert("http"@.is_prefix_of(s)) by {
                    assert(s[1] == rest[0]);
                    assert(s[2] == rest[1]);
                    assert(s[3] == rest[2]);
                }
            }
        }
    }
}

/// Obfuscation changes letters only: the text keeps its length and its line feeds.
proof fn lemma_obfuscation_keeps_line_feeds(s: Seq<char>)
    ensures
        replace_spec(s, "http"@, "hxxp"@).len() == s.len(),
        forall|i: int|
            0 <= i < s.len() ==> (#[trigger] replace_spec(s, "http"@, "hxxp"@)[i] == '\n') == (s[i]
                == '\n'),
    decreases s.len(),
{
    reveal_strlit("http");
    reveal_strlit("hxxp");
    let r = replace_spec(s, "http"@, "hxxp"@);
    if s.len() == 0 {
    } else if "http"@.is_prefix_of(s) {
        let rest = s.skip(4);
        lemma_obfuscation_keeps_line_feeds(rest);
        assert(r == "hxxp"@ + replace_spec(rest, "http"@, "hxxp"@));
        assert forall|i: int| 0 <= i < s.len() implies (#[trigger] r[i] == '\n') == (s[i] == '\n') by {
            if i >= 4 {
                assert(s[i] == rest[i - 4]);
            } else {
                lemma_prefix_at("http"@, s, i);
            }
        }
    } else {
        let rest = s.drop_first();
        lemma_obfuscation_keeps_line_feeds(rest);
        lemma_obfuscation_head(s);
        assert forall|i: int| 0 <= i < s.len() implies (#[trigger] r[i] == '\n') == (s[i] == '\n') by {
            if i >= 1 {
                assert(s[i] == rest[i - 1]);
            }
        }
    }
}

/// Texts of one length with line feeds in the same places have the same number of them.
proof fn lemma_same_line_feeds(a: Seq<char>, b: Seq<char>)
    requires
        a.len() == b.len(),
        forall|i: int| 0 <= i < a.len() ==> (#[trigger] a[i] == '\n') == (b[i] == '\n'),
    ensures
        count_char(a, '\n') == count_char(b, '\n'),
    decreases a.len(),
{
    if a.len() > 0 {
        lemma_same_line_feeds(a.drop_last(), b.drop_last());
        assert(a.last() == a[a.len() - 1]);
        assert(b.last() == b[b.len() - 1]);
    }
}

/// Obfuscating the payload keeps its lines: the stored text has as many lines as the feed.
pub proof fn lemma_obfuscation_keeps_lines(data: Seq<char>, option: PayloadOption)
    ensures
        line_count(stored_payload(data, option)) == line_count(data),
{
    if option.spec_obfuscates() {
        let r = replace_spec(data, "http"@, "hxxp"@);
        lemma_obfuscation_keeps_line_feeds(data);
        lemma_same_line_feeds(r, data);
        if data.len() > 0 {
            assert(r.last() == r[r.len() - 1]);
            assert(data.last() == data[data.len() - 1]);
        }
    }
}

/// The AMP report line a payload line gives: the host of its first plain `http` address with
/// every `www.` removed.
pub open spec fn amp_line(line: Seq<char>) -> Option<Seq<char>> {
    match first_group(HTTP_HOST_PATTERN@, line) {
        Some(h) => Some(replace_spec(h, "www."@, ""@)),
        None => None,
    }
}

/// The AMP report lines of payload lines, in order.
pub open spec fn amp_lines(lines: Seq<Seq<char>>) -> Seq<Seq<char>>
    decreases lines.len(),
{
    if lines.len() == 0 {
        seq![]
    } else {
        let p = amp_lines(lines.drop_last());
        match amp_line(lines.last()) {
            Some(d) => p.push(d),
            None => p,
        }
    }
}

/// The hexadecimal digit of a number below 16, in lowercase.
pub open spec fn hex_digit(n: nat) -> char {
    if n < 10 {
        (('0' as u32) + n) as char
    } else {
        (('a' as u32) + n - 10) as char
    }
}

/// Bytes in lowercase hexadecimal, two digits per byte, high digit first.
pub open spec fn hex_text(bytes: Seq<u8>) -> Seq<char>
    decreases bytes.len(),
{
    if bytes.len() == 0 {
        seq![]
    } else {
        hex_text(bytes.drop_last()) + seq![
            hex_digit((bytes.last() / 16) as nat),
            hex_digit((bytes.last() % 16) as nat),
        ]
    }
}

/// The SHA-256 digest of a byte string, as `sha2::Sha256` computes it.
pub uninterp spec fn sha256(bytes: Seq<u8>) -> Seq<u8>;

/// Hashes `bytes` with `sha2::Sha256` (`new`, `update`, `finalize`). The digest is named by
/// `sha256`; it is 32 bytes long, as the hash's output size says.
#[verifier::external_body]
fn sha256_digest(bytes: &[u8]) -> (r: Vec<u8>)
    ensures
        r@ == sha256(bytes@),
        r@.len() == 32,
{
    let mut hasher = sha2::Sha256::new();
    hasher.update(bytes);
    hasher.finalize().to_vec()
}

/// Calls `hex::encode`: each byte becomes two lowercase hexadecimal digits, high digit first,
/// from the table `0123456789abcdef`.
#[verifier::external_body]
fn hex_encode(bytes: &[u8]) -> (r: String)
    ensures
        r@ == hex_text(bytes@),
{
    hex::encode(bytes)
}

/// Hexadecimal text is ASCII, and lowercasing leaves it as it is.
proof fn lemma_hex_lowercase(bytes: Seq<u8>)
    ensures
        is_ascii_seq(hex_text(bytes)),
        hex_text(bytes).map_values(|c: char| ascii_lower_char(c)) == hex_text(bytes),
    decreases bytes.len(),
{
    if bytes.len() > 0 {
        lemma_hex_lowercase(bytes.drop_last());
        let h = hex_text(bytes);
        assert(h.map_values(|c: char| ascii_lower_char(c)) =~= h);
    }
}

/// Hexadecimal text has two digits per byte.
pub proof fn lemma_hex_len(bytes: Seq<u8>)
    ensures
        hex_text(bytes).len() == 2 * bytes.len(),
    decreases bytes.len(),
{
    if bytes.len() > 0 {
        lemma_hex_len(bytes.drop_last());
    }
}

/// The SHA-256 digest of `contents` in lowercase hexadecimal: 64 digits.
pub fn calculate_checksum(contents: &Vec<u8>) -> (r: String)
    ensures
        r@ == hex_text(sha256(contents@)),
        r@.len() == 64,
{
    let digest = sha256_digest(contents.as_slice());
    proof {
        lemma_hex_len(digest@);
    }
    hex_encode(digest.as_slice())
}

/// Whether a report file matches an expected SHA-256 checksum: a missing file never does, any
/// file does where no checksum is expected, and otherwise the checksum of its contents must equal
/// the expected one, trimmed, regardless of case.
pub fn verify_checksum(exists: bool, contents: &Vec<u8>, expected: Option<&str>) -> (r: bool)
    ensures
        !exists ==> !r,
        exists ==> match expected {
            Some(e) => {
                &&& r == (hex_text(sha256(contents@)) == lowercase(trim_spec(e@)))
                &&& is_ascii_seq(trim_spec(e@)) ==> r == (hex_text(sha256(contents@))
                    == trim_spec(e@).map_values(|c: char| ascii_lower_char(c)))
                &&& is_ascii_seq(trim_spec(e@)) && trim_spec(e@).len() != 64 ==> !r
            },
            None => r,
        },
{
    if !exists {
        return false;
    }
    match expected {
        None => true,
        Some(e) => {
            let calculated = calculate_checksum(contents);
            proof {
                lemma_hex_lowercase(sha256(contents@));
                lemma_hex_len(sha256(contents@));
            }
            let lower = to_lowercase(calculated.as_str());
            let wanted = to_lowercase(trim(e));
            crate::text::str_eq(lower.as_str(), wanted.as_str())
        },
    }
}

/// The number of lines of the payload feed and the text to store for it.
pub fn handle_payload_report(data: String, option: PayloadOption) -> (r: (usize, String))
    ensures
        r.0 == line_count(data@),
        r.1@ == stored_payload(data@, option),
{
    let feeds = count_occurrences(data.as_str(), '\n');
    let n = data.unicode_len();
    let last_open = n > 0 && data.as_str().get_char(n - 1) != '\n';
    proof {
        crate::text::lemma_count_char_bound(data@, '\n');
    }
    let count = if last_open {
        feeds + 1
    } else {
        feeds
    };
    proof {
        reveal_strlit("http");
        reveal_strlit("hxxp");
    }
    let stored = match option {
        PayloadOption::Obfuscate | PayloadOption::Both => replace_all(
            data.as_str(),
            "http",
            "hxxp",
        ),
        _ => data,
    };
    (count, stored)
}

/// The AMP report of a payload report: for each line with a plain `http` address, its host
/// without `www.`.
pub fn amp_domains(lines: &Vec<String>) -> (r: Vec<String>)
    ensures
        string_views(r@) == amp_lines(string_views(lines@)),
{
    let ghost ls = string_views(lines@);
    let mut out: Vec<String> = Vec::new();
    let mut i: usize = 0;
    assert(ls.take(0) =~= Seq::<Seq<char>>::empty());
    proof {
        reveal_strlit("www.");
        reveal_strlit("");
    }
    while i < lines.len()
        invariant
            i <= lines@.len(),
            ls == string_views(lines@),
            string_views(out@) == amp_lines(ls.take(i as int)),
            "www."@.len() > 0,
        decreases lines@.len() - i,
    {
        proof {
            assert(ls.take(i + 1).drop_last() =~= ls.take(i as int));
            assert(ls.take(i + 1).last() == lines@[i as int]@);
        }
        match first_capture(HTTP_HOST_PATTERN, lines[i].as_str()) {
            Some(h) => {
                let d = replace_all(h.as_str(), "www.", "");
                let ghost before = out@;
                out.push(d);
                assert(string_views(out@) =~= string_views(before).push(d@));
            },
            None => {},
        }
        i += 1;
    }
    assert(ls.take(lines@.len() as int) =~= ls);
    out
}

/// The most recent payload lines: the first hundred, or all of them where there are fewer.
pub fn top_domains(lines: &Vec<String>) -> (r: Vec<String>)
    ensures
        string_views(r@) == string_views(lines@).take(
            if lines@.len() < TOP_DOMAINS_COUNT {
                lines@.len() as int
            } else {
                TOP_DOMAINS_COUNT as int
            },
        ),
{
    let mut out: Vec<String> = Vec::new();
    let mut i: usize = 0;
    while i < lines.len() && i < TOP_DOMAINS_COUNT
        invariant
            i <= lines@.len(),
            i <= TOP_DOMAINS_COUNT,
            string_views(out@) == string_views(lines@).take(i as int),
        decreases lines@.len() - i,
    {
        let ghost before = out@;
        let line = lines[i].clone();
        out.push(line);
        proof {
            assert(string_views(out@) =~= string_views(before).push(line@));
            assert(string_views(lines@).take(i + 1) =~= string_views(lines@).take(i as int).push(
                lines@[i as int]@,
            ));
        }
        i += 1;
    }
    out
}

} // verus!
