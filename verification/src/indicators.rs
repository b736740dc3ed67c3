//! Recognising what kind of indicator a piece of text is.

use vstd::prelude::*;
use vstd::string::*;
use crate::text::{
    count_char, count_occurrences, lowercase, split_char, split_on, starts_with, to_lowercase,
    trim, trim_spec, views,
};

verus! {

/// Whether `c` is an ASCII decimal digit.
pub open spec fn is_digit(c: char) -> bool {
    '0' <= c && c <= '9'
}

/// Whether `c` is an ASCII hexadecimal digit (`char::is_ascii_hexdigit`).
pub open spec fn is_hex_digit(c: char) -> bool {
    ('0' <= c && c <= '9') || ('a' <= c && c <= 'f') || ('A' <= c && c <= 'F')
}

/// The value of a string of decimal digits.
pub open spec fn digits_value(d: Seq<char>) -> nat
    decreases d.len(),
{
    if d.len() == 0 {
        0
    } else {
        digits_value(d.drop_last()) * 10 + ((d.last() as u32) - ('0' as u32)) as nat
    }
}

/// Whether every character of `s` is a decimal digit.
pub open spec fn all_digits(s: Seq<char>) -> bool {
    forall|i: int| 0 <= i < s.len() ==> is_digit(#[trigger] s[i])
}

/// Whether `u8::from_str` accepts `s`: an optional `+`, then at least one decimal digit, with a
/// value of at most 255.
pub open spec fn parses_u8(s: Seq<char>) -> bool {
    let d = if s.len() > 0 && s[0] == '+' {
        s.drop_first()
    } else {
        s
    };
    d.len() > 0 && all_digits(d) && digits_value(d) <= 255
}

/// Whether `s` parses as a `u8`.
pub fn parses_as_u8(s: &str) -> (r: bool)
    ensures
        r == parses_u8(s@),
{
    let n = s.unicode_len();
    let mut start: usize = 0;
    if n > 0 && s.get_char(0) == '+' {
        start = 1;
    }
    let ghost d = if s@.len() > 0 && s@[0] == '+' {
        s@.drop_first()
    } else {
        s@
    };
    assert(d =~= s@.skip(start as int));
    if start == n {
        return false;
    }
    let mut v: u32 = 0;
    let mut i: usize = start;
    assert(d.take(0) =~= Seq::<char>::empty());
    while i < n
        invariant
            start <= i <= n,
            n == s@.len(),
            d =~= s@.skip(start as int),
            d == (if s@.len() > 0 && s@[0] == '+' {
                s@.drop_first()
            } else {
                s@
            }),
            all_digits(d.take(i - start)),
            v as nat == if digits_value(d.take(i - start)) <= 256 {
                digits_value(d.take(i - start))
            } else {
                256
            },
        decreases n - i,
    {
        let c = s.get_char(i);
        let ghost k = i - start;
        assert(d[k] == c);
        if !('0' <= c && c <= '9') {
            assert(!is_digit(d[k]));
            assert(!all_digits(d));
            return false;
        }
        proof {
            assert(d.take(k + 1).drop_last() =~= d.take(k));
            assert(d.take(k + 1).last() == c);
            assert(all_digits(d.take(k + 1))) by {
                assert forall|j: int| 0 <= j < k + 1 implies is_digit(#[trigger] d.take(k + 1)[j]) by {
                    if j < k {
                        assert(d.take(k + 1)[j] == d.take(k)[j]);
                    }
                }
            }
        }
        let digit = (c as u32) - ('0' as u32);
        let nv = v * 10 + digit;
        v = if nv > 256 {
            256
        } else {
            nv
        };
        i += 1;
    }
    assert(d.take(n - start) =~= d);
    v <= 255
}

/// Whether `s` is four `u8` values separated by dots.
pub open spec fn is_dotted_quad(s: Seq<char>) -> bool {
    let parts = split_char(s, '.');
    parts.len() == 4 && forall|i: int| 0 <= i < 4 ==> parses_u8(#[trigger] parts[i])
}

/// Whether `s` is four `u8` values separated by dots.
pub fn dotted_quad(s: &str) -> (r: bool)
    ensures
        r == is_dotted_quad(s@),
{
    let parts = split_on(s, '.');
    if parts.len() != 4 {
        return false;
    }
    let mut k: usize = 0;
    while k < 4
        invariant
            k <= 4,
            parts@.len() == 4,
            views(parts@) == split_char(s@, '.'),
            forall|j: int| 0 <= j < k ==> parses_u8(#[trigger] views(parts@)[j]),
        decreases 4 - k,
    {
        assert(views(parts@)[k as int] == parts@[k as int]@);
        if !parses_as_u8(parts[k]) {
            return false;
        }
        k += 1;
    }
    true
}

/// Whether `s` starts with `http://` or `https://`.
pub open spec fn is_url(s: Seq<char>) -> bool {
    "http://"@.is_prefix_of(s) || "https://"@.is_prefix_of(s)
}

/// Whether `s` starts with `http://` or `https://`.
pub fn looks_like_url(s: &str) -> (r: bool)
    ensures
        r == is_url(s@),
{
    starts_with(s, "http://") || starts_with(s, "https://")
}

/// Whether every character of `s` is a hexadecimal digit.
pub open spec fn all_hex(s: Seq<char>) -> bool {
    forall|i: int| 0 <= i < s.len() ==> is_hex_digit(#[trigger] s[i])
}

/// Whether `s` is an MD5, SHA-1 or SHA-256 digest in hexadecimal.
pub open spec fn is_hash(s: Seq<char>) -> bool {
    (s.len() == 32 || s.len() == 40 || s.len() == 64) && all_hex(s)
}

/// Whether `s` is an MD5, SHA-1 or SHA-256 digest in hexadecimal.
pub fn looks_like_hash(s: &str) -> (r: bool)
    ensures
        r == is_hash(s@),
{
    let n = s.unicode_len();
    if n != 32 && n != 40 && n != 64 {
        return false;
    }
    let mut i: usize = 0;
    while i < n
        invariant
            i <= n,
            n == s@.len(),
            forall|j: int| 0 <= j < i ==> is_hex_digit(#[trigger] s@[j]),
        decreases n - i,
    {
        let c = s.get_char(i);
        if !(('0' <= c && c <= '9') || ('a' <= c && c <= 'f') || ('A' <= c && c <= 'F')) {
            assert(!is_hex_digit(s@[i as int]));
            return false;
        }
        i += 1;
    }
    true
}

/// Whether `c` may appear in a domain name.
pub open spec fn is_domain_char(c: char) -> bool {
    ('a' <= c && c <= 'z') || ('A' <= c && c <= 'Z') || ('0' <= c && c <= '9') || c == '-' || c
        == '.' || c == '_'
}

/// Whether `d` is a plausible domain name: 1 to 253 ASCII letters, digits, `-`, `.` and `_`,
/// at least two dot-separated labels, each of 1 to 63 characters.
pub open spec fn is_valid_domain(d: Seq<char>) -> bool {
    let parts = split_char(d, '.');
    &&& 0 < d.len() <= 253
    &&& forall|i: int| 0 <= i < d.len() ==> is_domain_char(#[trigger] d[i])
    &&& parts.len() >= 2
    &&& forall|i: int| 0 <= i < parts.len() ==> 0 < (#[trigger] parts[i]).len() <= 63
}

/// Checks the shape of a domain name.
pub fn validate_domain_format(domain: &str) -> (r: bool)
    ensures
        r == is_valid_domain(domain@),
{
    let n = domain.unicode_len();
    if n == 0 || n > 253 {
        return false;
    }
    let mut i: usize = 0;
    while i < n
        invariant
            i <= n,
            n == domain@.len(),
            forall|j: int| 0 <= j < i ==> is_domain_char(#[trigger] domain@[j]),
        decreases n - i,
    {
        let c = domain.get_char(i);
        if !(('a' <= c && c <= 'z') || ('A' <= c && c <= 'Z') || ('0' <= c && c <= '9') || c == '-'
            || c == '.' || c == '_') {
            assert(!is_domain_char(domain@[i as int]));
            return false;
        }
        i += 1;
    }
    let parts = split_on(domain, '.');
    if parts.len() < 2 {
        return false;
    }
    let mut k: usize = 0;
    while k < parts.len()
        invariant
            k <= parts@.len(),
            views(parts@) == split_char(domain@, '.'),
            forall|j: int| 0 <= j < k ==> 0 < (#[trigger] views(parts@)[j]).len() <= 63,
        decreases parts@.len() - k,
    {
        assert(views(parts@)[k as int] == parts@[k as int]@);
        let len = parts[k].unicode_len();
        if len == 0 || len > 63 {
            return false;
        }
        k += 1;
    }
    true
}

/// The kind of a whitelisted indicator: `url`, `ip`, `hash` or `domain`, judged on the trimmed,
/// lowercased text.
pub open spec fn whitelist_kind(indicator: Seq<char>) -> Seq<char> {
    let t = lowercase(trim_spec(indicator));
    if is_url(t) {
        "url"@
    } else if count_char(t, '.') == 3 && is_dotted_quad(t) {
        "ip"@
    } else if is_hash(t) {
        "hash"@
    } else {
        "domain"@
    }
}

/// Judges the kind of an indicator for the whitelist.
pub fn detect_indicator_type(indicator: &str) -> (r: String)
    ensures
        r@ == whitelist_kind(indicator@),
{
    let lower = to_lowercase(trim(indicator));
    let t = lower.as_str();
    if looks_like_url(t) {
        "url".to_owned()
    } else if count_occurrences(t, '.') == 3 && dotted_quad(t) {
        "ip".to_owned()
    } else if looks_like_hash(t) {
        "hash".to_owned()
    } else {
        "domain".to_owned()
    }
}

/// The type an export gives an indicator line; `hash_name` names the digest type.
pub open spec fn export_kind(s: Seq<char>, hash_name: Seq<char>) -> Seq<char> {
    if is_dotted_quad(s) {
        "ipv4-addr"@
    } else if is_url(s) {
        "url"@
    } else if is_hash(s) {
        hash_name
    } else {
        "domain-name"@
    }
}

/// The type an export gives an indicator line.
pub fn export_indicator_type<'a>(s: &str, hash_name: &'a str) -> (r: &'a str)
    ensures
        r@ == export_kind(s@, hash_name@),
{
    if dotted_quad(s) {
        "ipv4-addr"
    } else if looks_like_url(s) {
        "url"
    } else if looks_like_hash(s) {
        hash_name
    } else {
        "domain-name"
    }
}


/// An export gives a line that is not a dotted quad and starts with `http://` or `https://` the
/// type "url".
pub proof fn lemma_export_kind_of_urls(s: Seq<char>, hash_name: Seq<char>)
    requires
        !is_dotted_quad(s),
        "http://"@.is_prefix_of(s) || "https://"@.is_prefix_of(s),
    ensures
        export_kind(s, hash_name) == "url"@,
{
}

/// An export gives a line of 32, 40 or 64 hexadecimal digits (which is not a dotted quad and
/// does not start like a URL) the name it gives digests.
pub proof fn lemma_export_kind_of_digests(s: Seq<char>, hash_name: Seq<char>)
    requires
        !"http://"@.is_prefix_of(s),
        !"https://"@.is_prefix_of(s),
        s.len() == 32 || s.len() == 40 || s.len() == 64,
        forall|i: int|
            0 <= i < s.len() ==> ('0' <= #[trigger] s[i] && s[i] <= '9') || ('a' <= s[i] && s[i]
                <= 'f') || ('A' <= s[i] && s[i] <= 'F'),
    ensures
        !is_dotted_quad(s) ==> export_kind(s, hash_name) == hash_name,
{
}

} // verus!
