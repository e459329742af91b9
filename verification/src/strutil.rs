//! Verified string helpers shared by the parsers in this crate.
//!
//! All executable functions here are specified against recursive spec
//! functions over `Seq<char>`, so callers can state their own contracts
//! directly over character sequences.

use vstd::prelude::*;

verus! {

/// ASCII whitespace, the characters trimming strips.
pub open spec fn is_space(c: char) -> bool {
    c == ' ' || c == '\t' || c == '\r' || c == '\n'
}

/// The needle occurs in the haystack starting at position `i`.
pub open spec fn match_at(hay: Seq<char>, needle: Seq<char>, i: int) -> bool {
    &&& 0 <= i
    &&& i + needle.len() <= hay.len()
    &&& forall|j: int| 0 <= j < needle.len() ==> hay[i + j] == needle[j]
}

/// The needle occurs somewhere in the haystack.
pub open spec fn contains_seq(hay: Seq<char>, needle: Seq<char>) -> bool {
    exists|i: int| match_at(hay, needle, i)
}

/// Whether `hay` contains `needle` as a contiguous substring.
pub fn str_contains(hay: &str, needle: &str) -> (r: bool)
    ensures
        r == contains_seq(hay@, needle@),
{
    let h: usize = hay.unicode_len();
    let n: usize = needle.unicode_len();
    if n > h {
        proof {
            if contains_seq(hay@, needle@) {
                let k = choose|k: int| match_at(hay@, needle@, k);
            }
        }
        return false;
    }
    let mut i: usize = 0;
    while i <= h - n
        invariant
            n <= h,
            h == hay@.len(),
            n == needle@.len(),
            i <= h - n + 1,
            forall|k: int| 0 <= k < i ==> !match_at(hay@, needle@, k),
        decreases h - n - i + 1,
    {
        let mut j: usize = 0;
        while j < n && hay.get_char(i + j) == needle.get_char(j)
            invariant
                h == hay@.len(),
                n == needle@.len(),
                i + n <= h,
                j <= n,
                forall|t: int| 0 <= t < j ==> hay@[i + t] == needle@[t],
            decreases n - j,
        {
            j = j + 1;
        }
        if j == n {
            assert(match_at(hay@, needle@, i as int));
            return true;
        }
        assert(!match_at(hay@, needle@, i as int)) by {
            assert(hay@[i + j] != needle@[j as int]);
        }
        i = i + 1;
    }
    proof {
        if contains_seq(hay@, needle@) {
            let k = choose|k: int| match_at(hay@, needle@, k);
            assert(k + n <= h);
            assert(!match_at(hay@, needle@, k));
        }
    }
    false
}

/// Index of the first occurrence of `c` in `s` at or after position `i`.
pub open spec fn find_from(s: Seq<char>, c: char, i: int) -> Option<int>
    decreases s.len() - i,
{
    if i < 0 || i >= s.len() {
        Option::None
    } else if s[i] == c {
        Option::Some(i)
    } else {
        find_from(s, c, i + 1)
    }
}

/// When no occurrence is found, every position at or after `i` differs from `c`.
pub proof fn lemma_find_none(s: Seq<char>, c: char, i: int)
    requires
        0 <= i,
        find_from(s, c, i) is None,
    ensures
        forall|k: int| i <= k < s.len() ==> s[k] != c,
    decreases s.len() - i,
{
    if 0 <= i < s.len() {
        lemma_find_none(s, c, i + 1);
    }
}

/// Find the first occurrence of `c` in `s` at or after `from`.
pub fn str_find_char(s: &str, c: char, from: usize) -> (r: Option<usize>)
    ensures
        match r {
            Option::Some(k) => find_from(s@, c, from as int) == Option::Some(k as int),
            Option::None => find_from(s@, c, from as int) is None,
        },
{
    let len: usize = s.unicode_len();
    let mut i: usize = from;
    while i < len
        invariant
            len == s@.len(),
            from <= i,
            find_from(s@, c, from as int) == find_from(s@, c, i as int),
        decreases len - i,
    {
        if s.get_char(i) == c {
            return Option::Some(i);
        }
        i = i + 1;
    }
    Option::None
}

/// `s` with leading ASCII whitespace removed.
pub open spec fn trim_start_rec(s: Seq<char>) -> Seq<char>
    decreases s.len(),
{
    if s.len() > 0 && is_space(s[0]) {
        trim_start_rec(s.drop_first())
    } else {
        s
    }
}

/// `s` with trailing ASCII whitespace removed.
pub open spec fn trim_end_rec(s: Seq<char>) -> Seq<char>
    decreases s.len(),
{
    if s.len() > 0 && is_space(s[s.len() - 1]) {
        trim_end_rec(s.drop_last())
    } else {
        s
    }
}

/// `s` with whitespace removed from both ends.
pub open spec fn spec_trim(s: Seq<char>) -> Seq<char> {
    trim_end_rec(trim_start_rec(s))
}

/// If the first `a` characters are spaces and position `a` is not a space
/// (or the end), the start-trimmed string is the tail from `a`.
proof fn lemma_trim_start_idx(s: Seq<char>, a: int)
    requires
        0 <= a <= s.len(),
        forall|k: int| 0 <= k < a ==> is_space(s[k]),
        a == s.len() || !is_space(s[a]),
    ensures
        trim_start_rec(s) == s.subrange(a, s.len() as int),
    decreases a,
{
    if a == 0 {
        assert(s.subrange(0, s.len() as int) =~= s);
    } else {
        assert(is_space(s[0]));
        lemma_trim_start_idx(s.drop_first(), a - 1);
        assert(s.drop_first().subrange(a - 1, s.drop_first().len() as int) =~= s.subrange(
            a,
            s.len() as int,
        ));
    }
}

/// If everything from position `b` on is a space and position `b - 1` is not
/// (or `b` is zero), the end-trimmed string is the prefix up to `b`.
proof fn lemma_trim_end_idx(s: Seq<char>, b: int)
    requires
        0 <= b <= s.len(),
        forall|k: int| b <= k < s.len() ==> is_space(s[k]),
        b == 0 || !is_space(s[b - 1]),
    ensures
        trim_end_rec(s) == s.subrange(0, b),
    decreases s.len(),
{
    if b == s.len() {
        if s.len() > 0 {
            assert(!is_space(s[s.len() - 1]));
        }
        assert(s.subrange(0, s.len() as int) =~= s);
    } else {
        assert(is_space(s[s.len() - 1]));
        lemma_trim_end_idx(s.drop_last(), b);
        assert(s.drop_last().subrange(0, b) =~= s.subrange(0, b));
    }
}

/// Whether `c` is ASCII whitespace.
pub fn is_space_char(c: char) -> (r: bool)
    ensures
        r == is_space(c),
{
    c == ' ' || c == '\t' || c == '\r' || c == '\n'
}

/// Remove ASCII whitespace from both ends of `s`.
pub fn str_trim(s: &str) -> (r: String)
    ensures
        r@ == spec_trim(s@),
{
    let len: usize = s.unicode_len();
    let mut a: usize = 0;
    while a < len && is_space_char(s.get_char(a))
        invariant
            len == s@.len(),
            a <= len,
            forall|k: int| 0 <= k < a ==> is_space(s@[k]),
        decreases len - a,
    {
        a = a + 1;
    }
    let mut b: usize = len;
    while b > a && is_space_char(s.get_char(b - 1))
        invariant
            len == s@.len(),
            a <= b <= len,
            forall|k: int| 0 <= k < a ==> is_space(s@[k]),
            forall|k: int| b <= k < len ==> is_space(s@[k]),
        decreases b,
    {
        b = b - 1;
    }
    let piece = s.substring_char(a, b);
    let r = piece.to_owned();
    proof {
        lemma_trim_start_idx(s@, a as int);
        let t = s@.subrange(a as int, len as int);
        lemma_trim_end_idx(t, b - a);
        assert(t.subrange(0, b - a) =~= s@.subrange(a as int, b as int));
    }
    r
}

/// The start-trimmed string is a suffix of the original.
pub proof fn lemma_trim_start_suffix(s: Seq<char>)
    ensures
        trim_start_rec(s).len() <= s.len(),
        trim_start_rec(s) == s.subrange(
            s.len() - trim_start_rec(s).len(),
            s.len() as int,
        ),
    decreases s.len(),
{
    if s.len() > 0 && is_space(s[0]) {
        lemma_trim_start_suffix(s.drop_first());
        let t = trim_start_rec(s);
        assert(s.drop_first().subrange(
            s.drop_first().len() - t.len(),
            s.drop_first().len() as int,
        ) =~= s.subrange(s.len() - t.len(), s.len() as int));
    } else {
        assert(s.subrange(0, s.len() as int) =~= s);
    }
}

/// The end-trimmed string is a prefix of the original.
pub proof fn lemma_trim_end_prefix(s: Seq<char>)
    ensures
        trim_end_rec(s).len() <= s.len(),
        trim_end_rec(s) == s.subrange(0, trim_end_rec(s).len() as int),
    decreases s.len(),
{
    if s.len() > 0 && is_space(s[s.len() - 1]) {
        lemma_trim_end_prefix(s.drop_last());
        let t = trim_end_rec(s);
        assert(s.drop_last().subrange(0, t.len() as int) =~= s.subrange(0, t.len() as int));
    } else {
        assert(s.subrange(0, s.len() as int) =~= s);
    }
}

/// Each character of the trimmed string occurs in the original.
pub proof fn lemma_trim_char_in_orig(s: Seq<char>, j: int)
    requires
        0 <= j < spec_trim(s).len(),
    ensures
        exists|w: int| 0 <= w < s.len() && s[w] == spec_trim(s)[j],
{
    lemma_trim_start_suffix(s);
    let t = trim_start_rec(s);
    lemma_trim_end_prefix(t);
    let a = s.len() - t.len();
    assert(spec_trim(s)[j] == t[j]);
    assert(t[j] == s[a + j]);
}

/// `p` is a prefix of `s`.
pub open spec fn is_prefix(p: Seq<char>, s: Seq<char>) -> bool {
    p.len() <= s.len() && forall|j: int| 0 <= j < p.len() ==> s[j] == p[j]
}

/// Whether `s` starts with `p`.
pub fn str_starts_with(s: &str, p: &str) -> (r: bool)
    ensures
        r == is_prefix(p@, s@),
{
    let sl: usize = s.unicode_len();
    let pl: usize = p.unicode_len();
    if pl > sl {
        return false;
    }
    let mut j: usize = 0;
    while j < pl && s.get_char(j) == p.get_char(j)
        invariant
            sl == s@.len(),
            pl == p@.len(),
            pl <= sl,
            j <= pl,
            forall|t: int| 0 <= t < j ==> s@[t] == p@[t],
        decreases pl - j,
    {
        j = j + 1;
    }
    if j == pl {
        true
    } else {
        assert(s@[j as int] != p@[j as int]);
        false
    }
}

/// A decimal digit.
pub open spec fn is_digit(c: char) -> bool {
    '0' <= c <= '9'
}

/// The numeric value of a decimal digit character.
pub open spec fn digit_val(c: char) -> int {
    c as int - '0' as int
}

/// Every character of `s` is a decimal digit.
pub open spec fn all_digits(s: Seq<char>) -> bool {
    forall|i: int| 0 <= i < s.len() ==> is_digit(s[i])
}

/// The value of `s` read as a decimal numeral.
pub open spec fn dec_val(s: Seq<char>) -> int
    decreases s.len(),
{
    if s.len() == 0 {
        0
    } else {
        dec_val(s.drop_last()) * 10 + digit_val(s.last())
    }
}

/// A numeral of digits has a non-negative value.
pub proof fn lemma_dec_val_nonneg(s: Seq<char>)
    requires
        all_digits(s),
    ensures
        dec_val(s) >= 0,
    decreases s.len(),
{
    if s.len() > 0 {
        assert(all_digits(s.drop_last()));
        lemma_dec_val_nonneg(s.drop_last());
        assert(is_digit(s.last()));
    }
}

/// Extending a numeral on the right cannot shrink its value.
pub proof fn lemma_dec_val_prefix(s: Seq<char>, k: int)
    requires
        all_digits(s),
        0 <= k <= s.len(),
    ensures
        dec_val(s) >= dec_val(s.subrange(0, k)),
    decreases s.len() - k,
{
    if k < s.len() {
        lemma_dec_val_prefix(s, k + 1);
        let p = s.subrange(0, k + 1);
        assert(p.drop_last() =~= s.subrange(0, k));
        assert(all_digits(s.subrange(0, k)));
        lemma_dec_val_nonneg(s.subrange(0, k));
        assert(is_digit(p.last()));
        assert(dec_val(p) == dec_val(s.subrange(0, k)) * 10 + digit_val(p.last()));
        assert(dec_val(p) >= dec_val(s.subrange(0, k))) by (nonlinear_arith)
            requires
                dec_val(p) == dec_val(s.subrange(0, k)) * 10 + digit_val(p.last()),
                dec_val(s.subrange(0, k)) >= 0,
                digit_val(p.last()) >= 0,
        ;
    } else {
        assert(s.subrange(0, k) =~= s);
    }
}

/// The digit part of `s`: everything after an optional leading plus sign.
pub open spec fn numeral_body(s: Seq<char>) -> Seq<char> {
    if s.len() > 0 && s[0] == '+' {
        s.drop_first()
    } else {
        s
    }
}

/// The value `s` parses to as a decimal `u64`: defined exactly when `s` is an
/// optional plus sign followed by one or more digits whose value fits.
pub open spec fn spec_parse_u64(s: Seq<char>) -> Option<u64> {
    let body = numeral_body(s);
    if body.len() > 0 && all_digits(body) && dec_val(body) <= u64::MAX {
        Option::Some(dec_val(body) as u64)
    } else {
        Option::None
    }
}

/// Parse a decimal `u64` from `s`: an optional leading `+`, then one or more
/// digits; fails on any other character or if the value does not fit.
pub fn parse_u64(s: &str) -> (r: Option<u64>)
    ensures
        r == spec_parse_u64(s@),
{
    let len: usize = s.unicode_len();
    let start: usize = if len > 0 && s.get_char(0) == '+' {
        1
    } else {
        0
    };
    if start >= len {
        return Option::None;
    }
    let ghost body = numeral_body(s@);
    proof {
        assert(body =~= s@.subrange(start as int, len as int));
    }
    let mut val: u64 = 0;
    let mut i: usize = start;
    while i < len
        invariant
            len == s@.len(),
            start <= i <= len,
            start < len,
            body == numeral_body(s@),
            body =~= s@.subrange(start as int, len as int),
            all_digits(body.subrange(0, i - start)),
            val == dec_val(body.subrange(0, i - start)),
        decreases len - i,
    {
        let c = s.get_char(i);
        if !(c >= '0' && c <= '9') {
            assert(!is_digit(body[i - start]));
            return Option::None;
        }
        let d: u64 = (c as u32 - '0' as u32) as u64;
        assert(d == digit_val(c) && d <= 9);
        let ghost prefix = body.subrange(0, i - start);
        let ghost next_prefix = body.subrange(0, i + 1 - start);
        proof {
            assert(next_prefix.drop_last() =~= prefix);
            assert(next_prefix.last() == c);
            assert(dec_val(next_prefix) == val * 10 + d);
        }
        if val > (u64::MAX - d) / 10 {
            proof {
                assert(val * 10 + d > u64::MAX) by (nonlinear_arith)
                    requires
                        val > (u64::MAX - d) / 10,
                        d <= 9,
                ;
                assert(all_digits(next_prefix));
                if all_digits(body) {
                    lemma_dec_val_prefix(body, i + 1 - start);
                    assert(dec_val(body) > u64::MAX);
                }
            }
            return Option::None;
        }
        proof {
            assert(val * 10 + d <= u64::MAX) by (nonlinear_arith)
                requires
                    val <= (u64::MAX - d) / 10,
                    d <= 9,
            ;
        }
        val = val * 10 + d;
        i = i + 1;
    }
    proof {
        assert(body.subrange(0, len - start) =~= body);
    }
    Option::Some(val)
}

/// The character for a digit value.
pub open spec fn digit_char(d: int) -> char {
    if d == 0 {
        '0'
    } else if d == 1 {
        '1'
    } else if d == 2 {
        '2'
    } else if d == 3 {
        '3'
    } else if d == 4 {
        '4'
    } else if d == 5 {
        '5'
    } else if d == 6 {
        '6'
    } else if d == 7 {
        '7'
    } else if d == 8 {
        '8'
    } else {
        '9'
    }
}

/// The decimal numeral of a non-negative number, most significant digit first.
pub open spec fn dec_str(n: int) -> Seq<char>
    decreases n,
{
    if n < 0 {
        Seq::empty()
    } else if n < 10 {
        seq![digit_char(n)]
    } else {
        dec_str(n / 10) + seq![digit_char(n % 10)]
    }
}

/// The one-character string for a digit value.
pub fn digit_str(d: u64) -> (r: &'static str)
    requires
        d <= 9,
    ensures
        r@ =~= seq![digit_char(d as int)],
{
    proof {
        reveal_strlit("0");
        reveal_strlit("1");
        reveal_strlit("2");
        reveal_strlit("3");
        reveal_strlit("4");
        reveal_strlit("5");
        reveal_strlit("6");
        reveal_strlit("7");
        reveal_strlit("8");
        reveal_strlit("9");
    }
    if d == 0 {
        "0"
    } else if d == 1 {
        "1"
    } else if d == 2 {
        "2"
    } else if d == 3 {
        "3"
    } else if d == 4 {
        "4"
    } else if d == 5 {
        "5"
    } else if d == 6 {
        "6"
    } else if d == 7 {
        "7"
    } else if d == 8 {
        "8"
    } else {
        "9"
    }
}

/// Render `n` as its decimal numeral.
pub fn u64_to_string(n: u64) -> (r: String)
    ensures
        r@ == dec_str(n as int),
    decreases n,
{
    if n < 10 {
        let s = digit_str(n);
        s.to_owned()
    } else {
        let mut s = u64_to_string(n / 10);
        s.append(digit_str(n % 10));
        s
    }
}

/// Index of the last occurrence of `c` in `s`.
pub open spec fn find_last(s: Seq<char>, c: char) -> Option<int>
    decreases s.len(),
{
    if s.len() == 0 {
        Option::None
    } else if s[s.len() - 1] == c {
        Option::Some(s.len() - 1)
    } else {
        find_last(s.drop_last(), c)
    }
}

/// Find the last occurrence of `c` in `s`.
pub fn str_find_last(s: &str, c: char) -> (r: Option<usize>)
    ensures
        match r {
            Option::Some(k) => find_last(s@, c) == Option::Some(k as int),
            Option::None => find_last(s@, c) is None,
        },
{
    let len: usize = s.unicode_len();
    let mut i: usize = len;
    proof {
        assert(s@.subrange(0, len as int) =~= s@);
    }
    while i > 0
        invariant
            len == s@.len(),
            i <= len,
            find_last(s@, c) == find_last(s@.subrange(0, i as int), c),
        decreases i,
    {
        proof {
            assert(s@.subrange(0, i as int).drop_last() =~= s@.subrange(0, i - 1));
            assert(s@.subrange(0, i as int).last() == s@[i - 1]);
        }
        if s.get_char(i - 1) == c {
            return Option::Some(i - 1);
        }
        i = i - 1;
    }
    proof {
        assert(s@.subrange(0, 0) =~= Seq::<char>::empty());
    }
    Option::None
}

/// The last occurrence found is in range and holds the sought character.
pub proof fn lemma_find_last_in_range(s: Seq<char>, c: char)
    requires
        find_last(s, c) is Some,
    ensures
        0 <= find_last(s, c)->Some_0 < s.len(),
        s[find_last(s, c)->Some_0] == c,
    decreases s.len(),
{
    if s.len() > 0 && s[s.len() - 1] != c {
        lemma_find_last_in_range(s.drop_last(), c);
    }
}

/// The views of a sequence of strings.
pub open spec fn seq_views(v: Seq<String>) -> Seq<Seq<char>> {
    v.map_values(|s: String| s@)
}

/// Where the line starting at `pos` ends: the next newline, or the end.
pub open spec fn line_end(s: Seq<char>, pos: int) -> int {
    match find_from(s, '\n', pos) {
        Option::Some(k) => k,
        Option::None => s.len() as int,
    }
}

/// The lines of `s` from position `pos` on, split at newline characters.
pub open spec fn lines_from(s: Seq<char>, pos: int) -> Seq<Seq<char>>
    decreases s.len() - pos,
    via lines_from_decreases
{
    if pos < 0 || pos >= s.len() {
        Seq::empty()
    } else {
        let end = line_end(s, pos);
        if end == s.len() {
            seq![s.subrange(pos, end)]
        } else {
            seq![s.subrange(pos, end)] + lines_from(s, end + 1)
        }
    }
}

#[via_fn]
proof fn lines_from_decreases(s: Seq<char>, pos: int) {
    if 0 <= pos < s.len() {
        if find_from(s, '\n', pos) is Some {
            lemma_find_some_in_range(s, '\n', pos);
        }
    }
}

/// The first occurrence found is in range and holds the sought character.
pub proof fn lemma_find_some_in_range(s: Seq<char>, c: char, i: int)
    requires
        find_from(s, c, i) is Some,
    ensures
        i <= find_from(s, c, i)->Some_0 < s.len(),
        s[find_from(s, c, i)->Some_0] == c,
    decreases s.len() - i,
{
    if 0 <= i < s.len() && s[i] != c {
        lemma_find_some_in_range(s, c, i + 1);
    }
}

/// Split `s` into its lines. Splitting is at `'\n'` characters; the final
/// line needs no terminator, and a trailing newline yields no extra line.
pub fn split_lines(s: &str) -> (r: Vec<String>)
    ensures
        seq_views(r@) == lines_from(s@, 0),
{
    let len: usize = s.unicode_len();
    let mut out: Vec<String> = Vec::new();
    let mut pos: usize = 0;
    while pos < len
        invariant_except_break
            len == s@.len(),
            pos <= len,
            seq_views(out@) + lines_from(s@, pos as int) =~= lines_from(s@, 0),
        ensures
            seq_views(out@) =~= lines_from(s@, 0),
        decreases len - pos,
    {
        let end: usize = match str_find_char(s, '\n', pos) {
            Option::Some(k) => {
                proof {
                    lemma_find_some_in_range(s@, '\n', pos as int);
                }
                k
            },
            Option::None => len,
        };
        let piece = s.substring_char(pos, end);
        let line = piece.to_owned();
        out.push(line);
        proof {
            assert(line_end(s@, pos as int) == end as int);
            assert(seq_views(out@) =~= seq_views(out@.drop_last()) + seq![line@]);
        }
        if end == len {
            break;
        }
        pos = end + 1;
    }
    proof {
        assert(seq_views(out@) =~= seq_views(out@) + Seq::<Seq<char>>::empty());
    }
    out
}

} // verus!
