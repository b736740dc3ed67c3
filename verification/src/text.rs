//! Character-level string operations with exact specifications.

use vstd::prelude::*;
use vstd::string::*;

verus! {

/// The Unicode `White_Space` property, as used by `char::is_whitespace`.
pub open spec fn is_ws(c: char) -> bool {
    let u = c as u32;
    ||| (0x9 <= u && u <= 0xD)
    ||| u == 0x20
    ||| u == 0x85
    ||| u == 0xA0
    ||| u == 0x1680
    ||| (0x2000 <= u && u <= 0x200A)
    ||| u == 0x2028
    ||| u == 0x2029
    ||| u == 0x202F
    ||| u == 0x205F
    ||| u == 0x3000
}

/// Whether `c` is a whitespace character.
pub fn is_whitespace(c: char) -> (r: bool)
    ensures
        r == is_ws(c),
{
    let u = c as u32;
    (0x9 <= u && u <= 0xD) || u == 0x20 || u == 0x85 || u == 0xA0 || u == 0x1680 || (0x2000 <= u
        && u <= 0x200A) || u == 0x2028 || u == 0x2029 || u == 0x202F || u == 0x205F || u == 0x3000
}

/// `s` without its leading whitespace.
pub open spec fn trim_start_spec(s: Seq<char>) -> Seq<char>
    decreases s.len(),
{
    if s.len() > 0 && is_ws(s[0]) {
        trim_start_spec(s.drop_first())
    } else {
        s
    }
}

/// `s` without its trailing whitespace.
pub open spec fn trim_end_spec(s: Seq<char>) -> Seq<char>
    decreases s.len(),
{
    if s.len() > 0 && is_ws(s.last()) {
        trim_end_spec(s.drop_last())
    } else {
        s
    }
}

/// `s` without leading and trailing whitespace (`str::trim`).
pub open spec fn trim_spec(s: Seq<char>) -> Seq<char> {
    trim_end_spec(trim_start_spec(s))
}

/// Removes leading and trailing whitespace.
pub fn trim(s: &str) -> (r: &str)
    ensures
        r@ == trim_spec(s@),
{
    let n = s.unicode_len();
    let mut i: usize = 0;
    assert(s@.subrange(0, n as int) =~= s@);
    while i < n && is_whitespace(s.get_char(i))
        invariant
            i <= n,
            n == s@.len(),
            trim_start_spec(s@) == trim_start_spec(s@.subrange(i as int, n as int)),
        decreases n - i,
    {
        assert(s@.subrange(i as int, n as int).drop_first() =~= s@.subrange(i + 1, n as int));
        i += 1;
    }
    assert(trim_start_spec(s@) == s@.subrange(i as int, n as int));
    let mut j: usize = n;
    while j > i && is_whitespace(s.get_char(j - 1))
        invariant
            i <= j <= n,
            n == s@.len(),
            trim_end_spec(s@.subrange(i as int, n as int)) == trim_end_spec(
                s@.subrange(i as int, j as int),
            ),
        decreases j,
    {
        assert(s@.subrange(i as int, j as int).drop_last() =~= s@.subrange(i as int, j - 1));
        j -= 1;
    }
    s.substring_char(i, j)
}


/// The views of a sequence of string slices.
pub open spec fn views(v: Seq<&str>) -> Seq<Seq<char>> {
    v.map_values(|w: &str| w@)
}

/// The views of a sequence of owned strings.
pub open spec fn string_views(v: Seq<String>) -> Seq<Seq<char>> {
    v.map_values(|w: String| w@)
}

/// Whether `a` and `b` hold the same characters.
pub fn str_eq(a: &str, b: &str) -> (r: bool)
    ensures
        r == (a@ == b@),
{
    let n = a.unicode_len();
    let m = b.unicode_len();
    if n != m {
        return false;
    }
    let mut i: usize = 0;
    while i < n
        invariant
            i <= n,
            n == a@.len(),
            m == b@.len(),
            n == m,
            forall|k: int| 0 <= k < i ==> a@[k] == b@[k],
        decreases n - i,
    {
        if a.get_char(i) != b.get_char(i) {
            return false;
        }
        i += 1;
    }
    assert(a@ =~= b@);
    true
}

/// Whether `pat` occurs in `s` starting at character position `i`.
pub fn matches_at(s: &str, i: usize, pat: &str) -> (r: bool)
    requires
        i <= s@.len(),
    ensures
        r == pat@.is_prefix_of(s@.skip(i as int)),
{
    let n = s.unicode_len();
    let m = pat.unicode_len();
    if m > n - i {
        return false;
    }
    let mut k: usize = 0;
    while k < m
        invariant
            k <= m,
            m <= n - i,
            n == s@.len(),
            m == pat@.len(),
            forall|t: int| 0 <= t < k ==> pat@[t] == s@[i + t],
        decreases m - k,
    {
        if s.get_char(i + k) != pat.get_char(k) {
            assert(s@.skip(i as int).subrange(0, m as int)[k as int] == s@[i + k]);
            return false;
        }
        k += 1;
    }
    assert(pat@ =~= s@.skip(i as int).subrange(0, m as int));
    true
}

/// Whether `s` starts with `pat` (`str::starts_with`).
pub fn starts_with(s: &str, pat: &str) -> (r: bool)
    ensures
        r == pat@.is_prefix_of(s@),
{
    assert(s@.skip(0) =~= s@);
    matches_at(s, 0, pat)
}

/// Whether `pat` occurs somewhere in `s` (`str::contains`); the empty pattern occurs everywhere.
pub open spec fn occurs_in(pat: Seq<char>, s: Seq<char>) -> bool {
    exists|k: int| 0 <= k <= s.len() && #[trigger] pat.is_prefix_of(s.skip(k))
}

/// Whether `pat` occurs somewhere in `s`.
pub fn contains_str(s: &str, pat: &str) -> (r: bool)
    ensures
        r == occurs_in(pat@, s@),
{
    let n = s.unicode_len();
    let mut i: usize = 0;
    while i <= n
        invariant
            i <= n + 1,
            n == s@.len(),
            forall|k: int| 0 <= k < i ==> !#[trigger] pat@.is_prefix_of(s@.skip(k)),
        decreases n + 1 - i,
    {
        if matches_at(s, i, pat) {
            return true;
        }
        if i == n {
            return false;
        }
        i += 1;
    }
    false
}

/// `k` is where `pat` first occurs in `s`.
pub open spec fn first_at(pat: Seq<char>, s: Seq<char>, k: int) -> bool {
    &&& 0 <= k <= s.len()
    &&& pat.is_prefix_of(s.skip(k))
    &&& forall|j: int| 0 <= j < k ==> !#[trigger] pat.is_prefix_of(s.skip(j))
}

/// Where `pat` first occurs in `s` (`str::find`, counted in characters).
pub fn find_str(s: &str, pat: &str) -> (r: Option<usize>)
    ensures
        match r {
            Some(k) => first_at(pat@, s@, k as int),
            None => !occurs_in(pat@, s@),
        },
{
    let n = s.unicode_len();
    let mut i: usize = 0;
    while i <= n
        invariant
            i <= n + 1,
            n == s@.len(),
            forall|k: int| 0 <= k < i ==> !#[trigger] pat@.is_prefix_of(s@.skip(k)),
        decreases n + 1 - i,
    {
        if matches_at(s, i, pat) {
            return Some(i);
        }
        if i == n {
            return None;
        }
        i += 1;
    }
    None
}

/// The number of leading non-whitespace characters of `s`.
pub open spec fn word_len(s: Seq<char>) -> nat
    decreases s.len(),
{
    if s.len() > 0 && !is_ws(s[0]) {
        1 + word_len(s.drop_first())
    } else {
        0
    }
}

/// Trimming leading whitespace leaves a suffix that starts with a non-whitespace character.
pub proof fn lemma_trim_start_suffix(s: Seq<char>)
    ensures
        trim_start_spec(s).len() <= s.len(),
        trim_start_spec(s) =~= s.skip(s.len() - trim_start_spec(s).len()),
        trim_start_spec(s).len() > 0 ==> !is_ws(trim_start_spec(s)[0]),
    decreases s.len(),
{
    if s.len() > 0 && is_ws(s[0]) {
        lemma_trim_start_suffix(s.drop_first());
    }
}

/// Basic facts on `word_len`.
pub proof fn lemma_word_len(s: Seq<char>)
    ensures
        word_len(s) <= s.len(),
        s.len() > 0 && !is_ws(s[0]) ==> word_len(s) >= 1,
        forall|k: int| 0 <= k < word_len(s) ==> !is_ws(#[trigger] s[k]),
    decreases s.len(),
{
    if s.len() > 0 && !is_ws(s[0]) {
        lemma_word_len(s.drop_first());
        assert forall|k: int| 0 <= k < word_len(s) implies !is_ws(#[trigger] s[k]) by {
            if k > 0 {
                assert(s[k] == s.drop_first()[k - 1]);
            }
        }
    }
}

/// A maximal run of non-whitespace characters at the front has length `word_len`.
pub proof fn lemma_word_len_eq(s: Seq<char>, m: int)
    requires
        0 <= m <= s.len(),
        forall|k: int| 0 <= k < m ==> !is_ws(#[trigger] s[k]),
        m == s.len() || is_ws(s[m]),
    ensures
        word_len(s) == m,
    decreases m,
{
    if m > 0 {
        assert(!is_ws(s[0]));
        let t = s.drop_first();
        assert forall|k: int| 0 <= k < m - 1 implies !is_ws(#[trigger] t[k]) by {
            assert(t[k] == s[k + 1]);
        }
        if m < s.len() {
            assert(t[m - 1] == s[m]);
        }
        lemma_word_len_eq(t, m - 1);
    }
}

/// The whitespace-separated words of `s` (`str::split_whitespace`).
pub open spec fn words(s: Seq<char>) -> Seq<Seq<char>>
    decreases s.len(),
{
    let t = trim_start_spec(s);
    if t.len() == 0 {
        seq![]
    } else {
        let k = word_len(t);
        proof {
            lemma_trim_start_suffix(s);
            lemma_word_len(t);
        }
        seq![t.take(k as int)] + words(t.skip(k as int))
    }
}

/// Splits `s` into its whitespace-separated words.
pub fn split_whitespace<'a>(s: &'a str) -> (r: Vec<&'a str>)
    ensures
        views(r@) == words(s@),
{
    let n = s.unicode_len();
    let mut out: Vec<&'a str> = Vec::new();
    let mut i: usize = 0;
    assert(s@.skip(0) =~= s@);
    while i < n
        invariant
            i <= n,
            n == s@.len(),
            views(out@) + words(s@.skip(i as int)) =~= words(s@),
        decreases n - i,
    {
        let ghost u = s@.skip(i as int);
        if is_whitespace(s.get_char(i)) {
            assert(u.drop_first() =~= s@.skip(i + 1));
            assert(words(u) == words(u.drop_first()));
            i += 1;
        } else {
            let mut j: usize = i + 1;
            while j < n && !is_whitespace(s.get_char(j))
                invariant
                    i < j <= n,
                    n == s@.len(),
                    forall|k: int| i <= k < j ==> !is_ws(#[trigger] s@[k]),
                decreases n - j,
            {
                j += 1;
            }
            proof {
                let m = j - i;
                assert forall|k: int| 0 <= k < m implies !is_ws(#[trigger] u[k]) by {
                    assert(u[k] == s@[i + k]);
                }
                if j < n {
                    assert(u[m as int] == s@[j as int]);
                }
                lemma_word_len_eq(u, m as int);
                assert(trim_start_spec(u) == u);
                assert(u.take(m as int) =~= s@.subrange(i as int, j as int));
                assert(u.skip(m as int) =~= s@.skip(j as int));
            }
            let w = s.substring_char(i, j);
            let ghost old_out = out@;
            out.push(w);
            assert(views(out@) =~= views(old_out).push(w@));
            i = j;
        }
    }
    assert(s@.skip(n as int).len() == 0);
    assert(trim_start_spec(s@.skip(n as int)).len() == 0);
    out
}

/// The words of `ws` joined by single spaces (`[&str]::join(" ")`).
pub open spec fn join_space(ws: Seq<Seq<char>>) -> Seq<char>
    decreases ws.len(),
{
    if ws.len() == 0 {
        seq![]
    } else if ws.len() == 1 {
        ws[0]
    } else {
        join_space(ws.drop_last()) + seq![' '] + ws.last()
    }
}

/// Joins `v[from..]` with single spaces.
pub fn join_words(v: &Vec<&str>, from: usize) -> (r: String)
    requires
        from <= v@.len(),
    ensures
        r@ == join_space(views(v@).skip(from as int)),
{
    let mut res = String::new();
    let mut k: usize = from;
    let sp = " ";
    proof {
        reveal_strlit(" ");
    }
    while k < v.len()
        invariant
            from <= k <= v@.len(),
            sp@ == seq![' '],
            res@ == join_space(views(v@).subrange(from as int, k as int)),
        decreases v@.len() - k,
    {
        let ghost prev = views(v@).subrange(from as int, k as int);
        let ghost next = views(v@).subrange(from as int, k + 1);
        assert(next.drop_last() =~= prev);
        if k != from {
            res.append(sp);
        } else {
            assert(prev.len() == 0);
        }
        res.append(v[k]);
        k += 1;
    }
    assert(views(v@).subrange(from as int, v@.len() as int) =~= views(v@).skip(from as int));
    res
}

/// `s` with every non-overlapping occurrence of `pat` (scanned left to right) replaced by `rep`
/// (`str::replace`).
pub open spec fn replace_spec(s: Seq<char>, pat: Seq<char>, rep: Seq<char>) -> Seq<char>
    decreases s.len(),
{
    if s.len() == 0 {
        seq![]
    } else if pat.len() > 0 && pat.is_prefix_of(s) {
        rep + replace_spec(s.skip(pat.len() as int), pat, rep)
    } else {
        seq![s[0]] + replace_spec(s.drop_first(), pat, rep)
    }
}

/// Replacing a pattern that does not occur leaves the text as it is.
pub proof fn lemma_replace_absent(s: Seq<char>, pat: Seq<char>, rep: Seq<char>)
    requires
        !occurs_in(pat, s),
    ensures
        replace_spec(s, pat, rep) == s,
    decreases s.len(),
{
    if s.len() > 0 {
        assert(s.skip(0) =~= s);
        let t = s.drop_first();
        assert forall|k: int| 0 <= k <= t.len() implies !#[trigger] pat.is_prefix_of(t.skip(k)) by {
            assert(t.skip(k) =~= s.skip(k + 1));
        }
        lemma_replace_absent(t, pat, rep);
        assert(s =~= seq![s[0]] + t);
    }
}

/// Replaces every occurrence of the non-empty pattern `pat` in `s` by `rep`.
pub fn replace_all(s: &str, pat: &str, rep: &str) -> (r: String)
    requires
        pat@.len() > 0,
    ensures
        r@ == replace_spec(s@, pat@, rep@),
{
    let n = s.unicode_len();
    let m = pat.unicode_len();
    let mut res = String::new();
    let mut i: usize = 0;
    assert(s@.skip(0) =~= s@);
    while i < n
        invariant
            i <= n,
            n == s@.len(),
            m == pat@.len(),
            m > 0,
            res@ + replace_spec(s@.skip(i as int), pat@, rep@) =~= replace_spec(s@, pat@, rep@),
        decreases n - i,
    {
        let ghost u = s@.skip(i as int);
        if matches_at(s, i, pat) {
            assert(u.skip(m as int) =~= s@.skip(i + m));
            res.append(rep);
            i += m;
        } else {
            assert(u.drop_first() =~= s@.skip(i + 1));
            let c = s.substring_char(i, i + 1);
            assert(c@ =~= seq![u[0]]);
            res.append(c);
            i += 1;
        }
    }
    assert(s@.skip(n as int).len() == 0);
    res
}

/// The number of occurrences of `c` in `s`.
pub open spec fn count_char(s: Seq<char>, c: char) -> nat
    decreases s.len(),
{
    if s.len() == 0 {
        0
    } else {
        count_char(s.drop_last(), c) + if s.last() == c {
            1nat
        } else {
            0nat
        }
    }
}

/// `c` occurs at most once per character, and one fewer time where the last character is not
/// `c`.
pub proof fn lemma_count_char_bound(s: Seq<char>, c: char)
    ensures
        count_char(s, c) <= s.len(),
        s.len() > 0 && s.last() != c ==> count_char(s, c) < s.len(),
    decreases s.len(),
{
    if s.len() > 0 {
        lemma_count_char_bound(s.drop_last(), c);
    }
}

/// Counts the occurrences of `c` in `s` (`str::matches(c).count()`).
pub fn count_occurrences(s: &str, c: char) -> (r: usize)
    ensures
        r == count_char(s@, c),
{
    let n = s.unicode_len();
    let mut cnt: usize = 0;
    let mut i: usize = 0;
    while i < n
        invariant
            i <= n,
            n == s@.len(),
            cnt == count_char(s@.take(i as int), c),
            cnt <= i,
        decreases n - i,
    {
        assert(s@.take(i + 1).drop_last() =~= s@.take(i as int));
        if s.get_char(i) == c {
            cnt += 1;
        }
        i += 1;
    }
    assert(s@.take(n as int) =~= s@);
    cnt
}

/// The pieces of `s` between occurrences of the separator `c` (`str::split(c)`); there is
/// always at least one piece.
pub open spec fn split_char(s: Seq<char>, c: char) -> Seq<Seq<char>>
    decreases s.len(),
{
    if s.len() == 0 {
        seq![seq![]]
    } else {
        let prev = split_char(s.drop_last(), c);
        if s.last() == c {
            prev.push(seq![])
        } else {
            prev.update(prev.len() - 1, prev.last().push(s.last()))
        }
    }
}

/// `split_char` never yields an empty list.
pub proof fn lemma_split_char_nonempty(s: Seq<char>, c: char)
    ensures
        split_char(s, c).len() >= 1,
    decreases s.len(),
{
    if s.len() > 0 {
        lemma_split_char_nonempty(s.drop_last(), c);
    }
}

/// Splits `s` at every occurrence of `c`.
pub fn split_on<'a>(s: &'a str, c: char) -> (r: Vec<&'a str>)
    ensures
        views(r@) == split_char(s@, c),
{
    let n = s.unicode_len();
    let mut out: Vec<&'a str> = Vec::new();
    let mut start: usize = 0;
    let mut i: usize = 0;
    assert(s@.take(0) =~= Seq::<char>::empty());
    assert(views(out@) =~= Seq::<Seq<char>>::empty());
    assert(s@.subrange(0, 0) =~= Seq::<char>::empty());
    while i < n
        invariant
            start <= i <= n,
            n == s@.len(),
            split_char(s@.take(i as int), c) =~= views(out@).push(s@.subrange(start as int, i as int)),
        decreases n - i,
    {
        proof {
            assert(s@.take(i + 1).drop_last() =~= s@.take(i as int));
            assert(s@.take(i + 1).last() == s@[i as int]);
        }
        if s.get_char(i) == c {
            let piece = s.substring_char(start, i);
            out.push(piece);
            start = i + 1;
            assert(s@.subrange(start as int, i + 1) =~= Seq::<char>::empty());
        } else {
            assert(s@.subrange(start as int, i + 1) =~= s@.subrange(start as int, i as int).push(
                s@[i as int],
            ));
        }
        i += 1;
    }
    let last = s.substring_char(start, n);
    out.push(last);
    assert(s@.take(n as int) =~= s@);
    out
}

/// A line without the carriage return that ended it.
pub open spec fn strip_cr(l: Seq<char>) -> Seq<char> {
    if l.len() > 0 && l.last() == '\r' {
        l.drop_last()
    } else {
        l
    }
}

/// The lines of `s` as `str::lines` yields them: split at each line feed, a carriage return
/// before a line feed dropped, and no empty line after a final line feed.
pub open spec fn text_lines(s: Seq<char>) -> Seq<Seq<char>> {
    let parts = split_char(s, '\n');
    let ended = parts.drop_last().map_values(|l: Seq<char>| strip_cr(l));
    if s.len() == 0 || s.last() == '\n' {
        ended
    } else {
        ended.push(parts.last())
    }
}

/// There is one more piece than separators.
pub proof fn lemma_split_char_len(s: Seq<char>, c: char)
    ensures
        split_char(s, c).len() == count_char(s, c) + 1,
    decreases s.len(),
{
    if s.len() > 0 {
        lemma_split_char_len(s.drop_last(), c);
    }
}

/// The lines of `s`, as `str::lines` yields them.
pub fn split_lines<'a>(s: &'a str) -> (r: Vec<&'a str>)
    ensures
        views(r@) == text_lines(s@),
{
    let parts = split_on(s, '\n');
    proof {
        lemma_split_char_nonempty(s@, '\n');
    }
    let ghost ps = views(parts@);
    let n = parts.len();
    let mut out: Vec<&'a str> = Vec::new();
    let mut i: usize = 0;
    while i + 1 < n
        invariant
            n == parts@.len(),
            n >= 1,
            ps == views(parts@),
            i + 1 <= n,
            views(out@) == ps.drop_last().take(i as int).map_values(|l: Seq<char>| strip_cr(l)),
        decreases n - i,
    {
        let p = parts[i];
        let m = p.unicode_len();
        let line = if m > 0 && p.get_char(m - 1) == '\r' {
            p.substring_char(0, m - 1)
        } else {
            p
        };
        proof {
            assert(ps[i as int] == p@);
            if m > 0 && p@.last() == '\r' {
                assert(line@ =~= p@.drop_last());
            }
        }
        let ghost before = out@;
        out.push(line);
        proof {
            assert(line@ == strip_cr(ps.drop_last()[i as int]));
            assert(views(out@) =~= views(before).push(line@));
            assert(ps.drop_last().take(i + 1).map_values(|l: Seq<char>| strip_cr(l)) =~= ps.drop_last().take(
                i as int,
            ).map_values(|l: Seq<char>| strip_cr(l)).push(strip_cr(ps.drop_last()[i as int])));
        }
        i += 1;
    }
    assert(ps.drop_last().take(i as int) =~= ps.drop_last());
    let len = s.unicode_len();
    if len == 0 || s.get_char(len - 1) == '\n' {
        out
    } else {
        let last = parts[n - 1];
        let ghost before = out@;
        out.push(last);
        assert(views(out@) =~= views(before).push(last@));
        out
    }
}

/// Copies a list of strings.
pub fn clone_strings(v: &Vec<String>) -> (r: Vec<String>)
    ensures
        string_views(r@) == string_views(v@),
{
    let mut r: Vec<String> = Vec::new();
    let mut k: usize = 0;
    while k < v.len()
        invariant
            k <= v@.len(),
            string_views(r@) =~= string_views(v@).take(k as int),
        decreases v@.len() - k,
    {
        let ghost before = r@;
        r.push(v[k].clone());
        assert(string_views(r@) =~= string_views(before).push(v@[k as int]@));
        assert(string_views(v@).take(k + 1) =~= string_views(v@).take(k as int).push(
            v@[k as int]@,
        ));
        k += 1;
    }
    assert(string_views(v@).take(v@.len() as int) =~= string_views(v@));
    r
}

/// Whether every character of `s` is ASCII.
pub open spec fn is_ascii_seq(s: Seq<char>) -> bool {
    forall|i: int| 0 <= i < s.len() ==> (#[trigger] s[i] as u32) < 128
}

/// The ASCII lowercase of a character: `A`-`Z` become `a`-`z`, all else is kept.
pub open spec fn ascii_lower_char(c: char) -> char {
    if 'A' <= c && c <= 'Z' {
        ((c as u32) + 32) as char
    } else {
        c
    }
}

/// The ASCII uppercase of a character: `a`-`z` become `A`-`Z`, all else is kept.
pub open spec fn ascii_upper_char(c: char) -> char {
    if 'a' <= c && c <= 'z' {
        ((c as u32) - 32) as char
    } else {
        c
    }
}

/// Unicode lowercase mapping of a string, as computed by `str::to_lowercase`.
pub uninterp spec fn lowercase(s: Seq<char>) -> Seq<char>;

/// Unicode uppercase mapping of a string, as computed by `str::to_uppercase`.
pub uninterp spec fn uppercase(s: Seq<char>) -> Seq<char>;

/// Calls `str::to_lowercase`. The result is named by `lowercase`; on ASCII text it is the
/// ASCII lowercase (std converts an ASCII run with `u8::to_ascii_lowercase`), which lowercasing
/// again leaves as it is. The Unicode case tables that govern other text are not restated.
#[verifier::external_body]
pub(crate) fn to_lowercase(s: &str) -> (r: String)
    ensures
        r@ == lowercase(s@),
        is_ascii_seq(s@) ==> r@ == s@.map_values(|c: char| ascii_lower_char(c)),
        is_ascii_seq(s@) ==> lowercase(r@) == r@,
{
    s.to_lowercase()
}

/// Calls `str::to_uppercase`. The result is named by `uppercase`; on ASCII text it is the
/// ASCII uppercase (std converts an ASCII run with `u8::to_ascii_uppercase`). The Unicode case
/// tables that govern other text are not restated.
#[verifier::external_body]
pub(crate) fn to_uppercase(s: &str) -> (r: String)
    ensures
        r@ == uppercase(s@),
        is_ascii_seq(s@) ==> r@ == s@.map_values(|c: char| ascii_upper_char(c)),
{
    s.to_uppercase()
}

/// The lowercase of each value.
pub open spec fn lowered(gs: Seq<Seq<char>>) -> Seq<Seq<char>> {
    gs.map_values(|g: Seq<char>| lowercase(g))
}

/// The lowercase of each string.
pub fn lower_all(v: &Vec<String>) -> (r: Vec<String>)
    ensures
        string_views(r@) == lowered(string_views(v@)),
{
    let mut out: Vec<String> = Vec::new();
    let mut i: usize = 0;
    while i < v.len()
        invariant
            i <= v@.len(),
            string_views(out@) == lowered(string_views(v@).take(i as int)),
        decreases v@.len() - i,
    {
        let ghost before = out@;
        let low = to_lowercase(v[i].as_str());
        out.push(low);
        proof {
            assert(string_views(out@) =~= string_views(before).push(low@));
            assert(lowered(string_views(v@).take(i + 1)) =~= lowered(string_views(v@).take(
                i as int,
            )).push(lowercase(v@[i as int]@)));
        }
        i += 1;
    }
    assert(string_views(v@).take(v@.len() as int) =~= string_views(v@));
    out
}

/// The decimal digits of `n`, most significant first.
pub open spec fn decimal(n: nat) -> Seq<char>
    decreases n,
{
    if n < 10 {
        seq![digit_char(n)]
    } else {
        decimal(n / 10) + seq![digit_char(n % 10)]
    }
}

/// The character of a decimal digit.
pub open spec fn digit_char(d: nat) -> char {
    ((d + 48) as u32) as char
}

/// Writes `n` in decimal (`u64::to_string`).
pub fn u64_to_decimal(n: u64) -> (r: String)
    ensures
        r@ == decimal(n as nat),
{
    let digits = "0123456789";
    proof {
        reveal_strlit("0123456789");
    }
    let mut rev: Vec<u8> = Vec::new();
    let mut m: u64 = n;
    loop
        invariant_except_break
            m <= n,
            decimal(n as nat) == decimal(m as nat) + seq_of_digits(rev@),
        invariant
            forall|i: int| 0 <= i < rev@.len() ==> rev@[i] < 10,
        ensures
            decimal(n as nat) == seq_of_digits(rev@),
        decreases m,
    {
        let d = (m % 10) as u8;
        let ghost old_rev = rev@;
        rev.insert(0, d);
        assert(rev@ =~= seq![d].add(old_rev));
        if m < 10 {
            assert(decimal(m as nat) == seq![digit_char(m as nat)]);
            assert(seq_of_digits(rev@) =~= seq![digit_char(d as nat)] + seq_of_digits(old_rev));
            assert(decimal(n as nat) =~= seq_of_digits(rev@));
            break;
        }
        assert(decimal(m as nat) == decimal((m / 10) as nat) + seq![digit_char((m % 10) as nat)]);
        assert(seq_of_digits(rev@) =~= seq![digit_char(d as nat)] + seq_of_digits(old_rev));
        m = m / 10;
    }
    let mut r = String::new();
    let mut i: usize = 0;
    while i < rev.len()
        invariant
            i <= rev@.len(),
            digits@ == seq!['0', '1', '2', '3', '4', '5', '6', '7', '8', '9'],
            forall|j: int| 0 <= j < rev@.len() ==> rev@[j] < 10,
            r@ == seq_of_digits(rev@.take(i as int)),
            decimal(n as nat) == seq_of_digits(rev@),
        decreases rev@.len() - i,
    {
        let d = rev[i] as usize;
        let c = digits.substring_char(d, d + 1);
        assert(c@ =~= seq![digit_char(d as nat)]);
        r.append(c);
        assert(seq_of_digits(rev@.take(i + 1)) =~= seq_of_digits(rev@.take(i as int)) + seq![
            digit_char(d as nat),
        ]);
        i += 1;
    }
    assert(rev@.take(rev@.len() as int) =~= rev@);
    r
}

/// The characters of a sequence of digit values.
pub open spec fn seq_of_digits(ds: Seq<u8>) -> Seq<char> {
    ds.map_values(|d: u8| digit_char(d as nat))
}

} // verus!
