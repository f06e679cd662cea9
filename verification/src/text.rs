//! Plain-text toolkit: substring search over character sequences.
//!
//! Everything the scrapers and URL builders need is defined here over
//! `Seq<char>` views, so that the higher layers can state their contracts
//! exactly.

use vstd::prelude::*;

verus! {

/// `pat` occurs in `s` at position `i`.
pub open spec fn match_at(s: Seq<char>, pat: Seq<char>, i: int) -> bool {
    &&& 0 <= i
    &&& i + pat.len() <= s.len()
    &&& forall|k: int| 0 <= k < pat.len() ==> s[i + k] == pat[k]
}

/// Position of the first occurrence of `pat` in `s` at or after `from`,
/// or -1 when there is none.
pub open spec fn first_match(s: Seq<char>, pat: Seq<char>, from: int) -> int
    decreases s.len() - from,
    when 0 <= from && 1 <= pat.len()
{
    if from + pat.len() > s.len() {
        -1
    } else if match_at(s, pat, from) {
        from
    } else {
        first_match(s, pat, from + 1)
    }
}

/// What `first_match` returns: either -1 and no occurrence at or after
/// `from`, or the leftmost occurrence at or after `from`.
pub proof fn lemma_first_match(s: Seq<char>, pat: Seq<char>, from: int)
    requires
        0 <= from,
        1 <= pat.len(),
    ensures
        first_match(s, pat, from) == -1 ==> forall|j: int|
            from <= j ==> !match_at(s, pat, j),
        first_match(s, pat, from) != -1 ==> {
            &&& from <= first_match(s, pat, from)
            &&& first_match(s, pat, from) + pat.len() <= s.len()
            &&& match_at(s, pat, first_match(s, pat, from))
            &&& forall|j: int|
                from <= j < first_match(s, pat, from) ==> !match_at(s, pat, j)
        },
    decreases s.len() - from,
{
    if from + pat.len() > s.len() {
        assert forall|j: int| from <= j implies !match_at(s, pat, j) by {}
    } else if match_at(s, pat, from) {
    } else {
        lemma_first_match(s, pat, from + 1);
    }
}

/// Whether `pat` occurs in `s` at position `i`; `n` and `m` are the
/// lengths of `s` and `pat`.
fn matches_at(s: &str, pat: &str, i: usize, n: usize, m: usize) -> (r: bool)
    requires
        n == s@.len(),
        m == pat@.len(),
        i + m <= n,
    ensures
        r == match_at(s@, pat@, i as int),
{
    let mut k: usize = 0;
    while k < m
        invariant
            k <= m,
            n == s@.len(),
            m == pat@.len(),
            i + m <= n,
            forall|q: int| 0 <= q < k ==> s@[i + q] == pat@[q],
        decreases m - k,
    {
        if s.get_char(i + k) != pat.get_char(k) {
            return false;
        }
        k += 1;
    }
    true
}

/// First occurrence of `pat` in `s` at or after `from`, scanning left to
/// right.
pub fn find_from(s: &str, from: usize, pat: &str) -> (r: Option<usize>)
    requires
        1 <= pat@.len(),
    ensures
        match r {
            Some(i) => first_match(s@, pat@, from as int) == i,
            None => first_match(s@, pat@, from as int) == -1,
        },
{
    let n = s.unicode_len();
    let m = pat.unicode_len();
    if from > n || m > n - from {
        return None;
    }
    let mut i: usize = from;
    while i <= n - m
        invariant
            from <= i,
            i <= n,
            m <= n,
            n == s@.len(),
            m == pat@.len(),
            1 <= m,
            first_match(s@, pat@, from as int) == first_match(s@, pat@, i as int),
        decreases n - i,
    {
        if matches_at(s, pat, i, n, m) {
            return Some(i);
        }
        i += 1;
    }
    None
}

/// The characters of `s` that follow its final `'/'`; all of `s` when it
/// holds no `'/'`.
pub open spec fn basename_of(s: Seq<char>) -> Seq<char>
    decreases s.len(),
{
    if s.len() == 0 {
        s
    } else if s.last() == '/' {
        Seq::empty()
    } else {
        basename_of(s.drop_last()).push(s.last())
    }
}

/// When position `i` is just past the final `'/'` of `s` (or 0 and `s`
/// holds no `'/'`), the basename is exactly the suffix from `i` on.
pub proof fn lemma_basename_is_suffix(s: Seq<char>, i: int)
    requires
        0 <= i <= s.len(),
        i == 0 || s[i - 1] == '/',
        forall|k: int| i <= k < s.len() ==> s[k] != '/',
    ensures
        basename_of(s) == s.subrange(i, s.len() as int),
    decreases s.len(),
{
    if s.len() == i {
        if i == 0 {
            assert(basename_of(s) =~= s.subrange(0, 0));
        } else {
            assert(s.last() == '/');
            assert(basename_of(s) =~= s.subrange(i, s.len() as int));
        }
    } else {
        assert(s.last() != '/');
        lemma_basename_is_suffix(s.drop_last(), i);
        assert(basename_of(s.drop_last()) == s.drop_last().subrange(
            i,
            s.len() - 1,
        ));
        assert(s.drop_last().subrange(i, s.len() - 1) =~= s.subrange(
            i,
            s.len() - 1,
        ));
        assert(s.subrange(i, s.len() - 1).push(s.last()) =~= s.subrange(
            i,
            s.len() as int,
        ));
    }
}

/// The substring after the final `'/'` of `url`; `url` itself when it
/// holds none.
pub fn get_basename(url: &str) -> (r: String)
    ensures
        r@ == basename_of(url@),
{
    let n = url.unicode_len();
    let mut i: usize = n;
    while i > 0
        invariant
            i <= n,
            n == url@.len(),
            forall|k: int| i <= k < n ==> url@[k] != '/',
        decreases i,
    {
        if url.get_char(i - 1) == '/' {
            proof {
                lemma_basename_is_suffix(url@, i as int);
            }
            return url.substring_char(i, n).to_owned();
        }
        i -= 1;
    }
    proof {
        lemma_basename_is_suffix(url@, 0);
        assert(url@.subrange(0, n as int) =~= url@);
    }
    url.to_owned()
}

/// Character-for-character equality of two string slices.
pub fn str_eq(a: &str, b: &str) -> (r: bool)
    ensures
        r == (a@ == b@),
{
    let n = a.unicode_len();
    if n != b.unicode_len() {
        return false;
    }
    let mut i: usize = 0;
    while i < n
        invariant
            i <= n,
            n == a@.len(),
            n == b@.len(),
            forall|k: int| 0 <= k < i ==> a@[k] == b@[k],
        decreases n - i,
    {
        if a.get_char(i) != b.get_char(i) {
            return false;
        }
        i += 1;
    }
    proof {
        assert(a@ =~= b@);
    }
    true
}

/// `s` begins with `pat`.
pub open spec fn has_prefix(s: Seq<char>, pat: Seq<char>) -> bool {
    pat.len() <= s.len() && forall|k: int| 0 <= k < pat.len() ==> s[k] == pat[k]
}

/// `s` ends with `pat`.
pub open spec fn has_suffix(s: Seq<char>, pat: Seq<char>) -> bool {
    pat.len() <= s.len() && forall|k: int|
        0 <= k < pat.len() ==> s[s.len() - pat.len() + k] == pat[k]
}

/// Whether `s` begins with `pat`.
pub fn starts_with_str(s: &str, pat: &str) -> (r: bool)
    ensures
        r == has_prefix(s@, pat@),
{
    let n = s.unicode_len();
    let m = pat.unicode_len();
    if m > n {
        return false;
    }
    matches_at(s, pat, 0, n, m)
}

/// The suffix of `s` from `pos` on, with every occurrence of `from_pat`
/// replaced by `to`, scanning left to right and never rescanning
/// replaced text.
pub open spec fn replace_all_from(
    s: Seq<char>,
    from_pat: Seq<char>,
    to: Seq<char>,
    pos: int,
) -> Seq<char>
    decreases s.len() - pos,
    when 0 <= pos <= s.len() && 1 <= from_pat.len()
    via replace_all_from_decreases
{
    let i = first_match(s, from_pat, pos);
    if i < 0 {
        s.subrange(pos, s.len() as int)
    } else {
        s.subrange(pos, i) + to + replace_all_from(s, from_pat, to, i + from_pat.len())
    }
}

#[via_fn]
proof fn replace_all_from_decreases(
    s: Seq<char>,
    from_pat: Seq<char>,
    to: Seq<char>,
    pos: int,
) {
    lemma_first_match(s, from_pat, pos);
}

/// `s` with every occurrence of `from_pat` replaced by `to`.
pub open spec fn replace_all(s: Seq<char>, from_pat: Seq<char>, to: Seq<char>) -> Seq<char> {
    replace_all_from(s, from_pat, to, 0)
}

/// Replace every occurrence of `from_pat` in `s` by `to`.
pub fn replace_all_str(s: &str, from_pat: &str, to: &str) -> (r: String)
    requires
        1 <= from_pat@.len(),
    ensures
        r@ == replace_all(s@, from_pat@, to@),
{
    let n = s.unicode_len();
    let m = from_pat.unicode_len();
    let mut out = String::new();
    let mut pos: usize = 0;
    loop
        invariant_except_break
            out@ + replace_all_from(s@, from_pat@, to@, pos as int) == replace_all(
                s@,
                from_pat@,
                to@,
            ),
        invariant
            pos <= n,
            n == s@.len(),
            m == from_pat@.len(),
            1 <= m,
        ensures
            out@ == replace_all(s@, from_pat@, to@),
        decreases n - pos,
    {
        match find_from(s, pos, from_pat) {
            None => {
                out.append(s.substring_char(pos, n));
                break;
            },
            Some(i) => {
                proof {
                    lemma_first_match(s@, from_pat@, pos as int);
                }
                out.append(s.substring_char(pos, i));
                out.append(to);
                pos = i + m;
            },
        }
    }
    out
}

/// The fields of the suffix of `s` from `pos` on, split at every
/// occurrence of `sep`; empty fields are kept.
pub open spec fn split_on_from(s: Seq<char>, sep: Seq<char>, pos: int) -> Seq<Seq<char>>
    decreases s.len() - pos,
    when 0 <= pos <= s.len() && 1 <= sep.len()
    via split_on_from_decreases
{
    let i = first_match(s, sep, pos);
    if i < 0 {
        seq![s.subrange(pos, s.len() as int)]
    } else {
        seq![s.subrange(pos, i)] + split_on_from(s, sep, i + sep.len())
    }
}

#[via_fn]
proof fn split_on_from_decreases(s: Seq<char>, sep: Seq<char>, pos: int) {
    lemma_first_match(s, sep, pos);
}

/// The fields of `s`, split at every occurrence of `sep`.
pub open spec fn split_on(s: Seq<char>, sep: Seq<char>) -> Seq<Seq<char>> {
    split_on_from(s, sep, 0)
}

/// Split `s` at every occurrence of `sep`, keeping empty fields.
pub fn split_str(s: &str, sep: &str) -> (r: Vec<String>)
    requires
        1 <= sep@.len(),
    ensures
        r.deep_view() == split_on(s@, sep@),
{
    let n = s.unicode_len();
    let m = sep.unicode_len();
    let mut out: Vec<String> = Vec::new();
    let mut pos: usize = 0;
    loop
        invariant_except_break
            out.deep_view() + split_on_from(s@, sep@, pos as int) == split_on(s@, sep@),
        invariant
            pos <= n,
            n == s@.len(),
            m == sep@.len(),
            1 <= m,
        ensures
            out.deep_view() == split_on(s@, sep@),
        decreases n - pos,
    {
        let ghost prev = out.deep_view();
        match find_from(s, pos, sep) {
            None => {
                out.push(s.substring_char(pos, n).to_owned());
                proof {
                    assert(out.deep_view() =~= prev + seq![
                        s@.subrange(pos as int, n as int),
                    ]);
                }
                break;
            },
            Some(i) => {
                proof {
                    lemma_first_match(s@, sep@, pos as int);
                }
                out.push(s.substring_char(pos, i).to_owned());
                proof {
                    assert(out.deep_view() =~= prev + seq![
                        s@.subrange(pos as int, i as int),
                    ]);
                }
                pos = i + m;
            },
        }
    }
    out
}

/// A split always yields at least one field.
pub proof fn lemma_split_on_from_len(s: Seq<char>, sep: Seq<char>, pos: int)
    requires
        0 <= pos <= s.len(),
        1 <= sep.len(),
    ensures
        split_on_from(s, sep, pos).len() >= 1,
    decreases s.len() - pos,
{
    lemma_first_match(s, sep, pos);
    let i = first_match(s, sep, pos);
    if i >= 0 {
        lemma_split_on_from_len(s, sep, i + sep.len());
    }
}

/// `c` is ASCII whitespace.
pub open spec fn is_space(c: char) -> bool {
    c == ' ' || c == '\t' || c == '\n' || c == '\r'
}

/// `s` holds nothing but whitespace.
pub open spec fn is_blank(s: Seq<char>) -> bool {
    forall|k: int| 0 <= k < s.len() ==> is_space(s[k])
}

/// Whether `s` holds nothing but whitespace.
pub fn is_blank_str(s: &str) -> (r: bool)
    ensures
        r == is_blank(s@),
{
    let n = s.unicode_len();
    let mut i: usize = 0;
    while i < n
        invariant
            i <= n,
            n == s@.len(),
            forall|k: int| 0 <= k < i ==> is_space(s@[k]),
        decreases n - i,
    {
        let c = s.get_char(i);
        if c != ' ' && c != '\t' && c != '\n' && c != '\r' {
            return false;
        }
        i += 1;
    }
    true
}

/// `c` is an ASCII decimal digit.
pub open spec fn is_digit(c: char) -> bool {
    48 <= c as int <= 57
}

/// Every character of `s` is an ASCII decimal digit.
pub open spec fn all_digits(s: Seq<char>) -> bool {
    forall|k: int| 0 <= k < s.len() ==> is_digit(s[k])
}

/// The value of a digit sequence read in base ten.
pub open spec fn dec_value(s: Seq<char>) -> int
    decreases s.len(),
{
    if s.len() == 0 {
        0
    } else {
        dec_value(s.drop_last()) * 10 + (s.last() as int - 48)
    }
}

pub proof fn lemma_dec_value_nonneg(s: Seq<char>)
    requires
        all_digits(s),
    ensures
        dec_value(s) >= 0,
    decreases s.len(),
{
    if s.len() > 0 {
        assert(all_digits(s.drop_last()));
        lemma_dec_value_nonneg(s.drop_last());
    }
}

/// Reading more digits can only increase the value.
pub proof fn lemma_dec_value_prefix_le(s: Seq<char>, i: int)
    requires
        all_digits(s),
        0 <= i <= s.len(),
    ensures
        dec_value(s.subrange(0, i)) <= dec_value(s),
    decreases s.len() - i,
{
    if i == s.len() {
        assert(s.subrange(0, i) =~= s);
    } else {
        assert(s.subrange(0, i + 1).drop_last() =~= s.subrange(0, i));
        assert(all_digits(s.subrange(0, i)));
        lemma_dec_value_nonneg(s.subrange(0, i));
        lemma_dec_value_prefix_le(s, i + 1);
    }
}

/// Parse `s` as a base-ten `u32`.  Returns the value exactly when `s` is
/// one or more decimal digits whose value fits in a `u32`.
pub fn parse_u32_str(s: &str) -> (r: Option<u32>)
    ensures
        match r {
            Some(v) => 1 <= s@.len() && all_digits(s@) && v == dec_value(s@),
            None => s@.len() == 0 || !all_digits(s@) || dec_value(s@) > u32::MAX,
        },
{
    let n = s.unicode_len();
    if n == 0 {
        return None;
    }
    let mut acc: u64 = 0;
    let mut i: usize = 0;
    while i < n
        invariant
            i <= n,
            n == s@.len(),
            all_digits(s@.subrange(0, i as int)),
            acc == dec_value(s@.subrange(0, i as int)),
            acc <= u32::MAX,
        decreases n - i,
    {
        let c = s.get_char(i);
        let v = c as u32;
        if v < 48 || v > 57 {
            assert(!is_digit(s@[i as int]));
            return None;
        }
        proof {
            assert(s@.subrange(0, i + 1).drop_last() =~= s@.subrange(0, i as int));
            assert(all_digits(s@.subrange(0, i + 1)));
        }
        let next: u64 = acc * 10 + ((v - 48) as u64);
        if next > u32::MAX as u64 {
            proof {
                if all_digits(s@) {
                    lemma_dec_value_prefix_le(s@, i + 1);
                }
            }
            return None;
        }
        acc = next;
        i += 1;
    }
    proof {
        assert(s@.subrange(0, n as int) =~= s@);
    }
    Some(acc as u32)
}

/// The character for the digit `d`.
pub open spec fn digit_char(d: int) -> char {
    if d == 0 {
        '0'
    } else if d == 1 {
        '1'
    } else if d == 2 {
        '2'
    } else if d == 3 {
        '3'
    } else if d == 4 {
        '4'
    } else if d == 5 {
        '5'
    } else if d == 6 {
        '6'
    } else if d == 7 {
        '7'
    } else if d == 8 {
        '8'
    } else {
        '9'
    }
}

/// The base-ten digits of `n`, most significant first.
pub open spec fn dec_digits(n: int) -> Seq<char>
    decreases n,
    when 0 <= n
{
    if n < 10 {
        seq![digit_char(n)]
    } else {
        dec_digits(n / 10).push(digit_char(n % 10))
    }
}

fn digit_str(d: u32) -> (r: &'static str)
    requires
        d < 10,
    ensures
        r@ == seq![digit_char(d as int)],
{
    if d == 0 {
        proof {
            reveal_strlit("0");
            assert("0"@ =~= seq![digit_char(0)]);
        }
        "0"
    } else if d == 1 {
        proof {
            reveal_strlit("1");
            assert("1"@ =~= seq![digit_char(1)]);
        }
        "1"
    } else if d == 2 {
        proof {
            reveal_strlit("2");
            assert("2"@ =~= seq![digit_char(2)]);
        }
        "2"
    } else if d == 3 {
        proof {
            reveal_strlit("3");
            assert("3"@ =~= seq![digit_char(3)]);
        }
        "3"
    } else if d == 4 {
        proof {
            reveal_strlit("4");
            assert("4"@ =~= seq![digit_char(4)]);
        }
        "4"
    } else if d == 5 {
        proof {
            reveal_strlit("5");
            assert("5"@ =~= seq![digit_char(5)]);
        }
        "5"
    } else if d == 6 {
        proof {
            reveal_strlit("6");
            assert("6"@ =~= seq![digit_char(6)]);
        }
        "6"
    } else if d == 7 {
        proof {
            reveal_strlit("7");
            assert("7"@ =~= seq![digit_char(7)]);
        }
        "7"
    } else if d == 8 {
        proof {
            reveal_strlit("8");
            assert("8"@ =~= seq![digit_char(8)]);
        }
        "8"
    } else {
        proof {
            reveal_strlit("9");
            assert("9"@ =~= seq![digit_char(9)]);
        }
        "9"
    }
}

/// Write `n` in base ten.
pub fn u32_to_string(n: u32) -> (r: String)
    ensures
        r@ == dec_digits(n as int),
    decreases n,
{
    if n < 10 {
        digit_str(n).to_owned()
    } else {
        let mut s = u32_to_string(n / 10);
        s.append(digit_str(n % 10));
        proof {
            assert(s@ =~= dec_digits(n as int));
        }
        s
    }
}

/// Whether `s` ends with `pat`.
pub fn ends_with_str(s: &str, pat: &str) -> (r: bool)
    ensures
        r == has_suffix(s@, pat@),
{
    let n = s.unicode_len();
    let m = pat.unicode_len();
    if m > n {
        return false;
    }
    matches_at(s, pat, n - m, n, m)
}

} // verus!
