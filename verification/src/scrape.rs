//! Pattern-based extraction from fetched pages.
//!
//! Each provider's markup is read with two fixed shapes: a capture list
//! (an opening marker, then a second marker, then everything up to a
//! closing delimiter) and a page-count scan (a `'>'`, a run of digits,
//! then `"</"`).  The spec functions here are the grammar; the exec
//! functions return exactly what the grammar names.

use vstd::prelude::*;

use crate::text::find_from;
use crate::text::first_match;
use crate::text::is_digit;
use crate::text::lemma_first_match;

verus! {

/// The segments of `s` found by scanning from `pos`: at each step the
/// first occurrence of `open`, then the first following occurrence of
/// `close`; what lies between is captured and the scan resumes after
/// `close`.
pub open spec fn captures1(
    s: Seq<char>,
    open: Seq<char>,
    close: Seq<char>,
    pos: int,
) -> Seq<Seq<char>>
    decreases s.len() - pos,
    when 0 <= pos && 1 <= open.len() && 1 <= close.len()
    via captures1_decreases
{
    let i = first_match(s, open, pos);
    if i < 0 {
        Seq::empty()
    } else {
        let start = i + open.len();
        let k = first_match(s, close, start);
        if k < 0 {
            Seq::empty()
        } else {
            seq![s.subrange(start, k)] + captures1(s, open, close, k + close.len())
        }
    }
}

#[via_fn]
proof fn captures1_decreases(s: Seq<char>, open: Seq<char>, close: Seq<char>, pos: int) {
    lemma_first_match(s, open, pos);
    let i = first_match(s, open, pos);
    if i >= 0 {
        lemma_first_match(s, close, i + open.len());
    }
}

/// As `captures1`, but each capture is anchored by two markers in turn:
/// the first occurrence of `open1`, then the first following occurrence
/// of `open2`, then everything up to the next `close`.
pub open spec fn captures2(
    s: Seq<char>,
    open1: Seq<char>,
    open2: Seq<char>,
    close: Seq<char>,
    pos: int,
) -> Seq<Seq<char>>
    decreases s.len() - pos,
    when 0 <= pos && 1 <= open1.len() && 1 <= open2.len() && 1 <= close.len()
    via captures2_decreases
{
    let i = first_match(s, open1, pos);
    if i < 0 {
        Seq::empty()
    } else {
        let j = first_match(s, open2, i + open1.len());
        if j < 0 {
            Seq::empty()
        } else {
            let start = j + open2.len();
            let k = first_match(s, close, start);
            if k < 0 {
                Seq::empty()
            } else {
                seq![s.subrange(start, k)] + captures2(s, open1, open2, close, k + close.len())
            }
        }
    }
}

#[via_fn]
proof fn captures2_decreases(
    s: Seq<char>,
    open1: Seq<char>,
    open2: Seq<char>,
    close: Seq<char>,
    pos: int,
) {
    lemma_first_match(s, open1, pos);
    let i = first_match(s, open1, pos);
    if i >= 0 {
        lemma_first_match(s, open2, i + open1.len());
        let j = first_match(s, open2, i + open1.len());
        if j >= 0 {
            lemma_first_match(s, close, j + open2.len());
        }
    }
}

/// Collect every segment of `s` between an `open` marker and the next
/// `close` delimiter.
pub fn extract1(s: &str, open: &str, close: &str) -> (r: Vec<String>)
    requires
        1 <= open@.len(),
        1 <= close@.len(),
    ensures
        r.deep_view() == captures1(s@, open@, close@, 0),
{
    let n = s.unicode_len();
    let mo = open.unicode_len();
    let mc = close.unicode_len();
    let mut out: Vec<String> = Vec::new();
    let mut pos: usize = 0;
    loop
        invariant_except_break
            out.deep_view() + captures1(s@, open@, close@, pos as int) == captures1(
                s@,
                open@,
                close@,
                0,
            ),
        invariant
            pos <= n,
            n == s@.len(),
            mo == open@.len(),
            mc == close@.len(),
            1 <= mo,
            1 <= mc,
        ensures
            out.deep_view() == captures1(s@, open@, close@, 0),
        decreases n - pos,
    {
        let ghost prev = out.deep_view();
        match find_from(s, pos, open) {
            None => {
                break;
            },
            Some(i) => {
                proof {
                    lemma_first_match(s@, open@, pos as int);
                }
                let start = i + mo;
                match find_from(s, start, close) {
                    None => {
                        break;
                    },
                    Some(k) => {
                        proof {
                            lemma_first_match(s@, close@, start as int);
                        }
                        out.push(s.substring_char(start, k).to_owned());
                        proof {
                            assert(out.deep_view() =~= prev + seq![
                                s@.subrange(start as int, k as int),
                            ]);
                        }
                        pos = k + mc;
                    },
                }
            },
        }
    }
    out
}

/// Collect every segment of `s` that follows an `open1` marker and then
/// an `open2` marker, up to the next `close` delimiter.
pub fn extract2(s: &str, open1: &str, open2: &str, close: &str) -> (r: Vec<String>)
    requires
        1 <= open1@.len(),
        1 <= open2@.len(),
        1 <= close@.len(),
    ensures
        r.deep_view() == captures2(s@, open1@, open2@, close@, 0),
{
    let n = s.unicode_len();
    let m1 = open1.unicode_len();
    let m2 = open2.unicode_len();
    let mc = close.unicode_len();
    let mut out: Vec<String> = Vec::new();
    let mut pos: usize = 0;
    loop
        invariant_except_break
            out.deep_view() + captures2(s@, open1@, open2@, close@, pos as int) == captures2(
                s@,
                open1@,
                open2@,
                close@,
                0,
            ),
        invariant
            pos <= n,
            n == s@.len(),
            m1 == open1@.len(),
            m2 == open2@.len(),
            mc == close@.len(),
            1 <= m1,
            1 <= m2,
            1 <= mc,
        ensures
            out.deep_view() == captures2(s@, open1@, open2@, close@, 0),
        decreases n - pos,
    {
        let ghost prev = out.deep_view();
        match find_from(s, pos, open1) {
            None => {
                break;
            },
            Some(i) => {
                proof {
                    lemma_first_match(s@, open1@, pos as int);
                }
                match find_from(s, i + m1, open2) {
                    None => {
                        break;
                    },
                    Some(j) => {
                        proof {
                            lemma_first_match(s@, open2@, i + m1 as int);
                        }
                        let start = j + m2;
                        match find_from(s, start, close) {
                            None => {
                                break;
                            },
                            Some(k) => {
                                proof {
                                    lemma_first_match(s@, close@, start as int);
                                }
                                out.push(s.substring_char(start, k).to_owned());
                                proof {
                                    assert(out.deep_view() =~= prev + seq![
                                        s@.subrange(start as int, k as int),
                                    ]);
                                }
                                pos = k + mc;
                            },
                        }
                    },
                }
            },
        }
    }
    out
}

/// Length of the run of decimal digits in `s` starting at `p`.
pub open spec fn digit_run(s: Seq<char>, p: int) -> int
    decreases s.len() - p,
    when 0 <= p <= s.len()
{
    if p < s.len() && is_digit(s[p]) {
        1 + digit_run(s, p + 1)
    } else {
        0
    }
}

pub proof fn lemma_digit_run_bounds(s: Seq<char>, p: int)
    requires
        0 <= p <= s.len(),
    ensures
        0 <= digit_run(s, p) <= s.len() - p,
        forall|k: int| p <= k < p + digit_run(s, p) ==> is_digit(s[k]),
    decreases s.len() - p,
{
    if p < s.len() && is_digit(s[p]) {
        lemma_digit_run_bounds(s, p + 1);
    }
}

/// Position `k` of `s` carries a page count: a `'>'`, then one or more
/// digits, then `"</"`.
pub open spec fn page_count_at(s: Seq<char>, k: int) -> bool {
    &&& 0 <= k < s.len()
    &&& s[k] == '>'
    &&& digit_run(s, k + 1) >= 1
    &&& k + 3 + digit_run(s, k + 1) <= s.len()
    &&& s[k + 1 + digit_run(s, k + 1)] == '<'
    &&& s[k + 2 + digit_run(s, k + 1)] == '/'
}

/// First position of `s` at or after `from` that carries a page count,
/// or -1 when there is none.
pub open spec fn first_page_count(s: Seq<char>, from: int) -> int
    decreases s.len() - from,
    when 0 <= from
{
    if from >= s.len() {
        -1
    } else if page_count_at(s, from) {
        from
    } else {
        first_page_count(s, from + 1)
    }
}

/// The digits of the page count found at position `k`.
pub open spec fn page_count_digits(s: Seq<char>, k: int) -> Seq<char> {
    s.subrange(k + 1, k + 1 + digit_run(s, k + 1))
}

fn digit_run_at(s: &str, p: usize, n: usize) -> (r: usize)
    requires
        p <= n,
        n == s@.len(),
    ensures
        r == digit_run(s@, p as int),
        p + r <= n,
{
    let mut q: usize = p;
    while q < n
        invariant
            p <= q <= n,
            n == s@.len(),
            digit_run(s@, p as int) == q - p + digit_run(s@, q as int),
        ensures
            p <= q <= n,
            digit_run(s@, p as int) == q - p,
        decreases n - q,
    {
        let v = s.get_char(q) as u32;
        if v < 48 || v > 57 {
            break;
        }
        q += 1;
    }
    q - p
}

fn page_count_at_exec(s: &str, k: usize, n: usize) -> (r: bool)
    requires
        k < n,
        n == s@.len(),
    ensures
        r == page_count_at(s@, k as int),
{
    if s.get_char(k) != '>' {
        return false;
    }
    let d = digit_run_at(s, k + 1, n);
    if d == 0 {
        return false;
    }
    if n - (k + 1 + d) < 2 {
        return false;
    }
    if s.get_char(k + 1 + d) != '<' {
        return false;
    }
    if s.get_char(k + 2 + d) != '/' {
        return false;
    }
    true
}

/// Find the first page count in `s` at or after `from`: its position and
/// the length of its digit run.
pub fn find_page_count(s: &str, from: usize) -> (r: Option<(usize, usize)>)
    ensures
        match r {
            Some((k, d)) => {
                &&& first_page_count(s@, from as int) == k
                &&& d == digit_run(s@, k + 1)
                &&& page_count_at(s@, k as int)
            },
            None => first_page_count(s@, from as int) == -1,
        },
{
    let n = s.unicode_len();
    if from >= n {
        return None;
    }
    let mut k: usize = from;
    while k < n
        invariant
            from <= k <= n,
            n == s@.len(),
            first_page_count(s@, from as int) == first_page_count(s@, k as int),
        decreases n - k,
    {
        if page_count_at_exec(s, k, n) {
            let d = digit_run_at(s, k + 1, n);
            return Some((k, d));
        }
        k += 1;
    }
    None
}

} // verus!
