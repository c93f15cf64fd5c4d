//! The text-bulletin parser: recovers the three forecast tables of a plain
//! ASCII bulletin from positional column alignment, inline annotations and
//! interval-encoded severity grades. The grammar is specified character by
//! character; each stage hands the position of the unconsumed remainder to
//! the next. A stage that cannot match fails softly (`Fail`); an invariant
//! violation (a numeric field too large for its type, a malformed exponent,
//! a grade outside 1..=5, a row that does not match the date columns) aborts
//! the whole parse (`Abort`). Either way no partial result is returned.
use vstd::prelude::*;

use crate::records::{
    kp_views, srs_views, KPForecast, KpView, SRSRBForecast, SWForecast, SrsView, SwView,
};
use crate::text::{
    chars_to_string, dec_val, is_digit, lex_le, lex_le_str, push_char, str_to_chars,
    dec_val_capped,
};
use crate::trusted::{canon_f32, canon_f32_of};

verus! {

/// The outcome of one parse stage: the position of the remainder and the
/// parsed value, a soft failure, or a fatal one.
pub ghost enum Parsed<T> {
    Val(int, T),
    Fail,
    Abort,
}

/// The exec side of a failed stage.
pub enum ParseErr {
    Soft,
    Hard,
}

// ---------------------------------------------------------------------------
// Character classes and scanners.
// ---------------------------------------------------------------------------
pub open spec fn is_space(c: char) -> bool {
    c == ' ' || c == '\t'
}

pub open spec fn is_ws(c: char) -> bool {
    c == ' ' || c == '\t' || c == '\r' || c == '\n'
}

pub open spec fn is_alpha(c: char) -> bool {
    (('a' as u32) <= (c as u32) <= ('z' as u32)) || (('A' as u32) <= (c as u32) <= ('Z' as u32))
}

pub open spec fn is_alnum(c: char) -> bool {
    is_alpha(c) || is_digit(c)
}

/// End of the run of spaces and tabs starting at `i`.
pub open spec fn space_end(s: Seq<char>, i: int) -> int
    decreases s.len() - i,
{
    if 0 <= i < s.len() && is_space(s[i]) {
        space_end(s, i + 1)
    } else {
        i
    }
}

/// End of the run of whitespace (spaces, tabs, line breaks) starting at `i`.
pub open spec fn ws_end(s: Seq<char>, i: int) -> int
    decreases s.len() - i,
{
    if 0 <= i < s.len() && is_ws(s[i]) {
        ws_end(s, i + 1)
    } else {
        i
    }
}

/// End of the run of decimal digits starting at `i`.
pub open spec fn digits_end(s: Seq<char>, i: int) -> int
    decreases s.len() - i,
{
    if 0 <= i < s.len() && is_digit(s[i]) {
        digits_end(s, i + 1)
    } else {
        i
    }
}

/// End of the run of ASCII letters starting at `i`.
pub open spec fn alpha_end(s: Seq<char>, i: int) -> int
    decreases s.len() - i,
{
    if 0 <= i < s.len() && is_alpha(s[i]) {
        alpha_end(s, i + 1)
    } else {
        i
    }
}

/// End of the run of ASCII letters and digits starting at `i`.
pub open spec fn alnum_end(s: Seq<char>, i: int) -> int
    decreases s.len() - i,
{
    if 0 <= i < s.len() && is_alnum(s[i]) {
        alnum_end(s, i + 1)
    } else {
        i
    }
}

fn space_end_x(v: &Vec<char>, i: usize) -> (r: usize)
    requires
        i <= v@.len(),
    ensures
        r == space_end(v@, i as int),
        i <= r <= v@.len(),
    decreases v@.len() - i,
{
    if i < v.len() && (v[i] == ' ' || v[i] == '\t') {
        space_end_x(v, i + 1)
    } else {
        i
    }
}

fn ws_end_x(v: &Vec<char>, i: usize) -> (r: usize)
    requires
        i <= v@.len(),
    ensures
        r == ws_end(v@, i as int),
        i <= r <= v@.len(),
    decreases v@.len() - i,
{
    if i < v.len() && (v[i] == ' ' || v[i] == '\t' || v[i] == '\r' || v[i] == '\n') {
        ws_end_x(v, i + 1)
    } else {
        i
    }
}

fn digits_end_x(v: &Vec<char>, i: usize) -> (r: usize)
    requires
        i <= v@.len(),
    ensures
        r == digits_end(v@, i as int),
        i <= r <= v@.len(),
        forall|k: int| i <= k < r ==> is_digit(v@[k]),
    decreases v@.len() - i,
{
    if i < v.len() && ('0' as u32 <= v[i] as u32 && v[i] as u32 <= '9' as u32) {
        digits_end_x(v, i + 1)
    } else {
        i
    }
}

fn alpha_end_x(v: &Vec<char>, i: usize) -> (r: usize)
    requires
        i <= v@.len(),
    ensures
        r == alpha_end(v@, i as int),
        i <= r <= v@.len(),
    decreases v@.len() - i,
{
    if i < v.len() && (('a' as u32 <= v[i] as u32 && v[i] as u32 <= 'z' as u32) || ('A' as u32
        <= v[i] as u32 && v[i] as u32 <= 'Z' as u32)) {
        alpha_end_x(v, i + 1)
    } else {
        i
    }
}

fn alnum_end_x(v: &Vec<char>, i: usize) -> (r: usize)
    requires
        i <= v@.len(),
    ensures
        r == alnum_end(v@, i as int),
        i <= r <= v@.len(),
    decreases v@.len() - i,
{
    if i < v.len() && (('a' as u32 <= v[i] as u32 && v[i] as u32 <= 'z' as u32) || ('A' as u32
        <= v[i] as u32 && v[i] as u32 <= 'Z' as u32) || ('0' as u32 <= v[i] as u32 && v[i] as u32
        <= '9' as u32)) {
        alnum_end_x(v, i + 1)
    } else {
        i
    }
}

// ---------------------------------------------------------------------------
// Fixed-text matching.
// ---------------------------------------------------------------------------
/// Whether the literal `t` stands at position `i` of `s`.
pub open spec fn tag_at(s: Seq<char>, i: int, t: Seq<char>) -> bool {
    0 <= i && i + t.len() <= s.len() && s.subrange(i, i + t.len()) == t
}

fn tag_at_x(v: &Vec<char>, i: usize, t: &str) -> (r: bool)
    requires
        i <= v@.len(),
    ensures
        r == tag_at(v@, i as int, t@),
{
    let m = t.unicode_len();
    let n = v.len();
    if n - i < m {
        proof {
            assert(!tag_at(v@, i as int, t@));
        }
        return false;
    }
    let mut k: usize = 0;
    while k < m
        invariant
            0 <= k <= m,
            i + m <= n,
            n == v@.len(),
            m == t@.len(),
            forall|j: int| 0 <= j < k ==> v@[i + j] == t@[j],
        decreases m - k,
    {
        if v[i + k] != t.get_char(k) {
            proof {
                assert(v@.subrange(i as int, i + m)[k as int] != t@[k as int]);
            }
            return false;
        }
        k = k + 1;
    }
    proof {
        assert(v@.subrange(i as int, i + m) =~= t@);
    }
    true
}

/// The first position at or after `i` where `t` stands, if any.
pub open spec fn find_at(s: Seq<char>, i: int, t: Seq<char>) -> Option<int>
    decreases s.len() - i,
{
    if i < 0 || i + t.len() > s.len() || t.len() == 0 {
        None
    } else if tag_at(s, i, t) {
        Some(i)
    } else {
        find_at(s, i + 1, t)
    }
}

fn find_at_x(v: &Vec<char>, i: usize, t: &str) -> (r: Option<usize>)
    requires
        i <= v@.len(),
    ensures
        (match r {
            Some(p) => find_at(v@, i as int, t@) == Some(p as int) && i <= p && p + t@.len()
                <= v@.len(),
            None => find_at(v@, i as int, t@) is None,
        }),
    decreases v@.len() - i,
{
    if t.unicode_len() > v.len() - i || t.unicode_len() == 0 {
        None
    } else if tag_at_x(v, i, t) {
        Some(i)
    } else {
        find_at_x(v, i + 1, t)
    }
}

/// Case-insensitive match of a lowercase ASCII pattern `t` at `i`.
pub open spec fn eq_ci(c: char, lc: char) -> bool {
    c == lc || ((lc as u32) >= 32 && (c as u32) == (lc as u32) - 32)
}

pub open spec fn ci_tag_at(s: Seq<char>, i: int, t: Seq<char>) -> bool {
    0 <= i && i + t.len() <= s.len() && (forall|k: int| 0 <= k < t.len() ==> eq_ci(s[i + k], t[k]))
}

fn ci_tag_at_x(v: &Vec<char>, i: usize, t: &str) -> (r: bool)
    requires
        i <= v@.len(),
    ensures
        r == ci_tag_at(v@, i as int, t@),
{
    let m = t.unicode_len();
    let n = v.len();
    if n - i < m {
        return false;
    }
    let mut k: usize = 0;
    while k < m
        invariant
            0 <= k <= m,
            i + m <= n,
            n == v@.len(),
            m == t@.len(),
            forall|j: int| 0 <= j < k ==> eq_ci(v@[i + j], t@[j]),
        decreases m - k,
    {
        let c = v[i + k];
        let lc = t.get_char(k);
        if !(c == lc || ((lc as u32) >= 32 && (c as u32) == (lc as u32) - 32)) {
            proof {
                assert(!eq_ci(v@[i + k], t@[k as int]));
            }
            return false;
        }
        k = k + 1;
    }
    true
}

// ---------------------------------------------------------------------------
// Line endings.
// ---------------------------------------------------------------------------
/// A line ending at `i`: "\n" or "\r\n".
pub open spec fn line_ending_end(s: Seq<char>, i: int) -> Option<int> {
    if 0 <= i < s.len() && s[i] == '\n' {
        Some(i + 1)
    } else if 0 <= i && i < s.len() && s[i] == '\r' && i + 1 < s.len() && s[i + 1] == '\n' {
        Some(i + 2)
    } else {
        None
    }
}

fn line_ending_end_x(v: &Vec<char>, i: usize) -> (r: Option<usize>)
    requires
        i <= v@.len(),
    ensures
        (match r {
            Some(p) => line_ending_end(v@, i as int) == Some(p as int) && i < p <= v@.len(),
            None => line_ending_end(v@, i as int) is None,
        }),
{
    if i < v.len() && v[i] == '\n' {
        Some(i + 1)
    } else if i < v.len() && v[i] == '\r' && i + 1 < v.len() && v[i + 1] == '\n' {
        Some(i + 2)
    } else {
        None
    }
}

/// First position at or after `i` holding '\r' or '\n' (or the end).
pub open spec fn nle_scan(s: Seq<char>, i: int) -> int
    decreases s.len() - i,
{
    if 0 <= i < s.len() && s[i] != '\r' && s[i] != '\n' {
        nle_scan(s, i + 1)
    } else {
        i
    }
}

/// The rest of the line starting at `i`: its end position, or None when the
/// line is cut by a carriage return that no line feed follows.
pub open spec fn not_line_ending_end(s: Seq<char>, i: int) -> Option<int> {
    let j = nle_scan(s, i);
    if j < s.len() && s[j] == '\r' && !(j + 1 < s.len() && s[j + 1] == '\n') {
        None
    } else {
        Some(j)
    }
}

fn nle_scan_x(v: &Vec<char>, i: usize) -> (r: usize)
    requires
        i <= v@.len(),
    ensures
        r == nle_scan(v@, i as int),
        i <= r <= v@.len(),
    decreases v@.len() - i,
{
    if i < v.len() && v[i] != '\r' && v[i] != '\n' {
        nle_scan_x(v, i + 1)
    } else {
        i
    }
}

fn not_line_ending_end_x(v: &Vec<char>, i: usize) -> (r: Option<usize>)
    requires
        i <= v@.len(),
    ensures
        (match r {
            Some(p) => not_line_ending_end(v@, i as int) == Some(p as int) && i <= p <= v@.len(),
            None => not_line_ending_end(v@, i as int) is None,
        }),
{
    let j = nle_scan_x(v, i);
    if j < v.len() && v[j] == '\r' && !(j + 1 < v.len() && v[j + 1] == '\n') {
        None
    } else {
        Some(j)
    }
}

// ---------------------------------------------------------------------------
// The numeric token of a Kp value.
// ---------------------------------------------------------------------------
/// End of a floating-point token at `i`: an optional sign, then either
/// digits with an optional fraction or a fraction alone, then an optional
/// exponent; or a case-insensitive "nan" or "inf". An exponent mark that no
/// digit follows is fatal.
pub open spec fn sp_float_token(s: Seq<char>, i: int) -> Parsed<int> {
    let j = if 0 <= i < s.len() && (s[i] == '+' || s[i] == '-') {
        i + 1
    } else {
        i
    };
    let d1 = digits_end(s, j);
    let p = if d1 > j {
        if d1 < s.len() && s[d1] == '.' {
            digits_end(s, d1 + 1)
        } else {
            d1
        }
    } else if j < s.len() && s[j] == '.' && digits_end(s, j + 1) > j + 1 {
        digits_end(s, j + 1)
    } else {
        -1
    };
    if p >= 0 {
        if p < s.len() && (s[p] == 'e' || s[p] == 'E') {
            let q = if p + 1 < s.len() && (s[p + 1] == '+' || s[p + 1] == '-') {
                p + 2
            } else {
                p + 1
            };
            if digits_end(s, q) > q {
                Parsed::Val(digits_end(s, q), digits_end(s, q))
            } else {
                Parsed::Abort
            }
        } else {
            Parsed::Val(p, p)
        }
    } else if ci_tag_at(s, i, "nan"@) {
        Parsed::Val(i + 3, i + 3)
    } else if ci_tag_at(s, i, "inf"@) {
        Parsed::Val(i + 3, i + 3)
    } else {
        Parsed::Fail
    }
}

fn float_token_x(v: &Vec<char>, i: usize) -> (r: Result<usize, ParseErr>)
    requires
        i <= v@.len(),
    ensures
        (match r {
            Ok(p) => sp_float_token(v@, i as int) == Parsed::<int>::Val(p as int, p as int) && i < p
                <= v@.len(),
            Err(ParseErr::Soft) => sp_float_token(v@, i as int) is Fail,
            Err(ParseErr::Hard) => sp_float_token(v@, i as int) is Abort,
        }),
{
    let j: usize = if i < v.len() && (v[i] == '+' || v[i] == '-') {
        i + 1
    } else {
        i
    };
    let d1 = digits_end_x(v, j);
    let mut p: usize = 0;
    let mut have_mantissa: bool = false;
    if d1 > j {
        have_mantissa = true;
        if d1 < v.len() && v[d1] == '.' {
            p = digits_end_x(v, d1 + 1);
        } else {
            p = d1;
        }
    } else if j < v.len() && v[j] == '.' {
        let d2 = digits_end_x(v, j + 1);
        if d2 > j + 1 {
            have_mantissa = true;
            p = d2;
        }
    }
    if have_mantissa {
        if p < v.len() && (v[p] == 'e' || v[p] == 'E') {
            let q: usize = if p + 1 < v.len() && (v[p + 1] == '+' || v[p + 1] == '-') {
                p + 2
            } else {
                p + 1
            };
            let e = digits_end_x(v, q);
            if e > q {
                Ok(e)
            } else {
                Err(ParseErr::Hard)
            }
        } else {
            Ok(p)
        }
    } else if ci_tag_at_x(v, i, "nan") {
        proof {
            reveal_strlit("nan");
        }
        Ok(i + 3)
    } else if ci_tag_at_x(v, i, "inf") {
        proof {
            reveal_strlit("inf");
        }
        Ok(i + 3)
    } else {
        Err(ParseErr::Soft)
    }
}

// ---------------------------------------------------------------------------
// Dates and the section header.
// ---------------------------------------------------------------------------
/// The views of a sequence of owned strings.
pub open spec fn str_views(s: Seq<String>) -> Seq<Seq<char>> {
    s.map_values(|x: String| x@)
}

/// One date column: a month word, spaces, a day number; the value is
/// "<Month> <Day>" with a single space.
pub open spec fn sp_date(s: Seq<char>, i: int) -> Parsed<Seq<char>> {
    let a = alpha_end(s, i);
    if a == i {
        Parsed::Fail
    } else {
        let b = space_end(s, a);
        if b == a {
            Parsed::Fail
        } else {
            let d = digits_end(s, b);
            if d == b {
                Parsed::Fail
            } else {
                Parsed::Val(d, s.subrange(i, a) + " "@ + s.subrange(b, d))
            }
        }
    }
}

fn date_x(v: &Vec<char>, i: usize) -> (r: Result<(usize, String), ParseErr>)
    requires
        i <= v@.len(),
    ensures
        (match r {
            Ok((j, d)) => sp_date(v@, i as int) == Parsed::Val(j as int, d@) && i < j <= v@.len(),
            Err(ParseErr::Soft) => sp_date(v@, i as int) is Fail,
            Err(ParseErr::Hard) => false,
        }),
{
    let a = alpha_end_x(v, i);
    if a == i {
        return Err(ParseErr::Soft);
    }
    let b = space_end_x(v, a);
    if b == a {
        return Err(ParseErr::Soft);
    }
    let d = digits_end_x(v, b);
    if d == b {
        return Err(ParseErr::Soft);
    }
    let mut m = chars_to_string(v, i, a);
    push_char(&mut m, ' ');
    let day = chars_to_string(v, b, d);
    let m = m.concat(day.as_str());
    proof {
        reveal_strlit(" ");
        assert(m@ =~= v@.subrange(i as int, a as int) + " "@ + v@.subrange(b as int, d as int));
    }
    Ok((d, m))
}

/// The run of date columns: each preceded by at least one space.
pub open spec fn sp_many_dates(s: Seq<char>, i: int) -> Parsed<Seq<Seq<char>>>
    decreases s.len() - i,
{
    let k = space_end(s, i);
    if k == i {
        Parsed::Fail
    } else {
        match sp_date(s, k) {
            Parsed::Val(j, d) => if i < j && j <= s.len() {
                match sp_many_dates(s, j) {
                    Parsed::Val(m, ds) => Parsed::Val(m, seq![d] + ds),
                    Parsed::Fail => Parsed::Val(j, seq![d]),
                    Parsed::Abort => Parsed::Abort,
                }
            } else {
                Parsed::Fail
            },
            _ => Parsed::Fail,
        }
    }
}

fn many_dates_x(v: &Vec<char>, i: usize) -> (r: Result<(usize, Vec<String>), ParseErr>)
    requires
        i <= v@.len(),
    ensures
        (match r {
            Ok((j, ds)) => sp_many_dates(v@, i as int) == Parsed::Val(j as int, str_views(ds@))
                && i < j <= v@.len(),
            Err(ParseErr::Soft) => sp_many_dates(v@, i as int) is Fail,
            Err(ParseErr::Hard) => false,
        }),
    decreases v@.len() - i,
{
    let k = space_end_x(v, i);
    if k == i {
        return Err(ParseErr::Soft);
    }
    match date_x(v, k) {
        Err(_) => Err(ParseErr::Soft),
        Ok((j, d)) => {
            match many_dates_x(v, j) {
                Err(_) => {
                    let mut ds: Vec<String> = Vec::new();
                    ds.push(d);
                    proof {
                        assert(str_views(ds@) =~= seq![ds@[0]@]);
                    }
                    Ok((j, ds))
                },
                Ok((m, mut rest)) => {
                    let ghost rest0 = rest@;
                    let mut ds: Vec<String> = Vec::new();
                    ds.push(d);
                    ds.append(&mut rest);
                    proof {
                        assert(str_views(ds@) =~= seq![ds@[0]@] + str_views(rest0));
                    }
                    Ok((m, ds))
                },
            }
        },
    }
}

/// The last space-separated token of a line; empty when the line ends with a
/// space or is empty.
pub open spec fn last_token(line: Seq<char>) -> Seq<char>
    decreases line.len(),
{
    if line.len() == 0 {
        Seq::empty()
    } else if line.last() == ' ' {
        Seq::empty()
    } else {
        last_token(line.drop_last()).push(line.last())
    }
}

fn last_token_x(v: &Vec<char>, from: usize, to: usize) -> (r: String)
    requires
        from <= to <= v@.len(),
    ensures
        r@ == last_token(v@.subrange(from as int, to as int)),
    decreases to,
{
    if to == from {
        let r = String::new();
        proof {
            assert(v@.subrange(from as int, to as int) =~= Seq::<char>::empty());
        }
        r
    } else if v[to - 1] == ' ' {
        String::new()
    } else {
        let mut s = last_token_x(v, from, to - 1);
        push_char(&mut s, v[to - 1]);
        proof {
            assert(v@.subrange(from as int, to as int).drop_last() =~= v@.subrange(
                from as int,
                to - 1,
            ));
        }
        s
    }
}

/// A section header: the fixed phrase located anywhere ahead, whitespace,
/// the rest of that line (whose last token is the year), a blank line, then
/// the date columns; every date gets the year appended.
pub open spec fn sp_header(s: Seq<char>, i: int, h: Seq<char>) -> Parsed<Seq<Seq<char>>> {
    match find_at(s, i, h) {
        None => Parsed::Fail,
        Some(p) => {
            let q = p + h.len();
            let w = ws_end(s, q);
            if w == q {
                Parsed::Fail
            } else {
                match not_line_ending_end(s, w) {
                    None => Parsed::Fail,
                    Some(m) => {
                        let year = " "@ + last_token(s.subrange(w, m));
                        match line_ending_end(s, m) {
                            None => Parsed::Fail,
                            Some(m2) => match line_ending_end(s, m2) {
                                None => Parsed::Fail,
                                Some(m3) => match sp_many_dates(s, m3) {
                                    Parsed::Val(e, ds) => match line_ending_end(s, e) {
                                        None => Parsed::Fail,
                                        Some(e2) => Parsed::Val(
                                            e2,
                                            ds.map_values(|d: Seq<char>| d + year),
                                        ),
                                    },
                                    _ => Parsed::Fail,
                                },
                            },
                        }
                    },
                }
            }
        },
    }
}

fn header_x(v: &Vec<char>, i: usize, h: &str) -> (r: Result<(usize, Vec<String>), ParseErr>)
    requires
        i <= v@.len(),
    ensures
        (match r {
            Ok((j, ds)) => sp_header(v@, i as int, h@) == Parsed::Val(j as int, str_views(ds@))
                && i < j <= v@.len(),
            Err(ParseErr::Soft) => sp_header(v@, i as int, h@) is Fail,
            Err(ParseErr::Hard) => false,
        }),
{
    let p = match find_at_x(v, i, h) {
        Some(p) => p,
        None => {
            return Err(ParseErr::Soft);
        },
    };
    let n = v.len();
    let q = p + h.unicode_len();
    let w = ws_end_x(v, q);
    if w == q {
        return Err(ParseErr::Soft);
    }
    let m = match not_line_ending_end_x(v, w) {
        Some(m) => m,
        None => {
            return Err(ParseErr::Soft);
        },
    };
    let mut year = String::new();
    push_char(&mut year, ' ');
    let year = year.concat(last_token_x(v, w, m).as_str());
    proof {
        reveal_strlit(" ");
        assert(year@ =~= " "@ + last_token(v@.subrange(w as int, m as int)));
    }
    let m2 = match line_ending_end_x(v, m) {
        Some(x) => x,
        None => {
            return Err(ParseErr::Soft);
        },
    };
    let m3 = match line_ending_end_x(v, m2) {
        Some(x) => x,
        None => {
            return Err(ParseErr::Soft);
        },
    };
    let (e, dates) = match many_dates_x(v, m3) {
        Ok(x) => x,
        Err(_) => {
            return Err(ParseErr::Soft);
        },
    };
    let e2 = match line_ending_end_x(v, e) {
        Some(x) => x,
        None => {
            return Err(ParseErr::Soft);
        },
    };
    let mut out: Vec<String> = Vec::new();
    let mut t: usize = 0;
    while t < dates.len()
        invariant
            t <= dates@.len(),
            out@.len() == t,
            forall|u: int| 0 <= u < t ==> out@[u]@ == dates@[u]@ + year@,
        decreases dates@.len() - t,
    {
        let d2 = dates[t].clone();
        let d2 = d2.concat(year.as_str());
        out.push(d2);
        t = t + 1;
    }
    proof {
        let ghost yr = " "@ + last_token(v@.subrange(w as int, m as int));
        assert(str_views(out@) =~= str_views(dates@).map_values(|d: Seq<char>| d + yr));
    }
    Ok((e2, out))
}

// ---------------------------------------------------------------------------
// Kp rows.
// ---------------------------------------------------------------------------
/// One Kp value: a numeric token in canonical form, optional spaces, and an
/// optional discarded parenthesized annotation.
pub open spec fn sp_kp_val(s: Seq<char>, i: int) -> Parsed<Seq<char>> {
    match sp_float_token(s, i) {
        Parsed::Fail => Parsed::Fail,
        Parsed::Abort => Parsed::Abort,
        Parsed::Val(j, _) => match canon_f32_of(s.subrange(i, j)) {
            None => Parsed::Fail,
            Some(val) => {
                let k = space_end(s, j);
                if k < s.len() && s[k] == '(' {
                    let a = alnum_end(s, k + 1);
                    if a > k + 1 && a < s.len() && s[a] == ')' {
                        Parsed::Val(a + 1, val)
                    } else {
                        Parsed::Val(k, val)
                    }
                } else {
                    Parsed::Val(k, val)
                }
            },
        },
    }
}

fn kp_val_x(v: &Vec<char>, i: usize) -> (r: Result<(usize, String), ParseErr>)
    requires
        i <= v@.len(),
    ensures
        (match r {
            Ok((j, val)) => sp_kp_val(v@, i as int) == Parsed::Val(j as int, val@) && i < j
                <= v@.len(),
            Err(ParseErr::Soft) => sp_kp_val(v@, i as int) is Fail,
            Err(ParseErr::Hard) => sp_kp_val(v@, i as int) is Abort,
        }),
{
    let j = match float_token_x(v, i) {
        Ok(j) => j,
        Err(e) => {
            return Err(e);
        },
    };
    let token = chars_to_string(v, i, j);
    let val = match canon_f32(token.as_str()) {
        Some(c) => c,
        None => {
            return Err(ParseErr::Soft);
        },
    };
    let k = space_end_x(v, j);
    if k < v.len() && v[k] == '(' {
        let a = alnum_end_x(v, k + 1);
        if a > k + 1 && a < v.len() && v[a] == ')' {
            Ok((a + 1, val))
        } else {
            Ok((k, val))
        }
    } else {
        Ok((k, val))
    }
}

/// The run of Kp values on one row, each preceded by optional spaces.
pub open spec fn sp_many_kp_vals(s: Seq<char>, i: int) -> Parsed<Seq<Seq<char>>>
    decreases s.len() - i,
{
    let k = space_end(s, i);
    match sp_kp_val(s, k) {
        Parsed::Abort => Parsed::Abort,
        Parsed::Fail => Parsed::Fail,
        Parsed::Val(j, val) => if i < j && j <= s.len() {
            match sp_many_kp_vals(s, j) {
                Parsed::Abort => Parsed::Abort,
                Parsed::Fail => Parsed::Val(j, seq![val]),
                Parsed::Val(m, vals) => Parsed::Val(m, seq![val] + vals),
            }
        } else {
            Parsed::Fail
        },
    }
}

fn many_kp_vals_x(v: &Vec<char>, i: usize) -> (r: Result<(usize, Vec<String>), ParseErr>)
    requires
        i <= v@.len(),
    ensures
        (match r {
            Ok((j, vals)) => sp_many_kp_vals(v@, i as int) == Parsed::Val(
                j as int,
                str_views(vals@),
            ) && i < j <= v@.len(),
            Err(ParseErr::Soft) => sp_many_kp_vals(v@, i as int) is Fail,
            Err(ParseErr::Hard) => sp_many_kp_vals(v@, i as int) is Abort,
        }),
    decreases v@.len() - i,
{
    let k = space_end_x(v, i);
    match kp_val_x(v, k) {
        Err(e) => Err(e),
        Ok((j, val)) => {
            match many_kp_vals_x(v, j) {
                Err(ParseErr::Hard) => Err(ParseErr::Hard),
                Err(ParseErr::Soft) => {
                    let mut vals: Vec<String> = Vec::new();
                    vals.push(val);
                    proof {
                        assert(str_views(vals@) =~= seq![vals@[0]@]);
                    }
                    Ok((j, vals))
                },
                Ok((m, mut rest)) => {
                    let ghost rest0 = rest@;
                    let mut vals: Vec<String> = Vec::new();
                    vals.push(val);
                    vals.append(&mut rest);
                    proof {
                        assert(str_views(vals@) =~= seq![vals@[0]@] + str_views(rest0));
                    }
                    Ok((m, vals))
                },
            }
        },
    }
}

/// The "<start>-<end>UT" interval opening a Kp row; the value is the pair of
/// hours. An hour that does not fit its type is fatal.
pub open spec fn sp_hours_interval(s: Seq<char>, i: int) -> Parsed<(u8, u8)> {
    let d1 = digits_end(s, i);
    if d1 == i {
        Parsed::Fail
    } else if !(d1 < s.len() && s[d1] == '-') {
        Parsed::Fail
    } else {
        let d2 = digits_end(s, d1 + 1);
        if d2 == d1 + 1 {
            Parsed::Fail
        } else if !(d2 + 1 < s.len() && s[d2] == 'U' && s[d2 + 1] == 'T') {
            Parsed::Fail
        } else {
            let v1 = dec_val(s.subrange(i, d1));
            let v2 = dec_val(s.subrange(d1 + 1, d2));
            if v1 > 255 || v2 > 255 {
                Parsed::Abort
            } else {
                Parsed::Val(d2 + 2, (v1 as u8, v2 as u8))
            }
        }
    }
}

fn hours_interval_x(v: &Vec<char>, i: usize) -> (r: Result<(usize, (u8, u8)), ParseErr>)
    requires
        i <= v@.len(),
    ensures
        (match r {
            Ok((j, hrs)) => sp_hours_interval(v@, i as int) == Parsed::Val(j as int, hrs) && i < j
                <= v@.len(),
            Err(ParseErr::Soft) => sp_hours_interval(v@, i as int) is Fail,
            Err(ParseErr::Hard) => sp_hours_interval(v@, i as int) is Abort,
        }),
{
    let d1 = digits_end_x(v, i);
    if d1 == i {
        return Err(ParseErr::Soft);
    }
    if !(d1 < v.len() && v[d1] == '-') {
        return Err(ParseErr::Soft);
    }
    let d2 = digits_end_x(v, d1 + 1);
    if d2 == d1 + 1 {
        return Err(ParseErr::Soft);
    }
    if !(d2 < v.len() && v[d2] == 'U' && d2 + 1 < v.len() && v[d2 + 1] == 'T') {
        return Err(ParseErr::Soft);
    }
    let c1 = dec_val_capped(v, i, d1);
    let c2 = dec_val_capped(v, d1 + 1, d2);
    if c1 > 255 || c2 > 255 {
        return Err(ParseErr::Hard);
    }
    Ok((d2 + 2, (c1 as u8, c2 as u8)))
}

/// One Kp row: the hour interval, the run of values, trailing whitespace and
/// an optional line ending; the value keeps the interval-end hour.
pub open spec fn sp_kp_row(s: Seq<char>, i: int) -> Parsed<(u8, Seq<Seq<char>>)> {
    match sp_hours_interval(s, i) {
        Parsed::Fail => Parsed::Fail,
        Parsed::Abort => Parsed::Abort,
        Parsed::Val(j, hrs) => match sp_many_kp_vals(s, j) {
            Parsed::Fail => Parsed::Fail,
            Parsed::Abort => Parsed::Abort,
            Parsed::Val(k, vals) => {
                let m = ws_end(s, k);
                let m2 = match line_ending_end(s, m) {
                    Some(x) => x,
                    None => m,
                };
                Parsed::Val(m2, (hrs.1, vals))
            },
        },
    }
}

fn kp_row_x(v: &Vec<char>, i: usize) -> (r: Result<(usize, (u8, Vec<String>)), ParseErr>)
    requires
        i <= v@.len(),
    ensures
        (match r {
            Ok((j, row)) => sp_kp_row(v@, i as int) == Parsed::Val(
                j as int,
                (row.0, str_views(row.1@)),
            ) && i < j <= v@.len(),
            Err(ParseErr::Soft) => sp_kp_row(v@, i as int) is Fail,
            Err(ParseErr::Hard) => sp_kp_row(v@, i as int) is Abort,
        }),
{
    let (j, hrs) = match hours_interval_x(v, i) {
        Ok(x) => x,
        Err(e) => {
            return Err(e);
        },
    };
    let (k, vals) = match many_kp_vals_x(v, j) {
        Ok(x) => x,
        Err(e) => {
            return Err(e);
        },
    };
    let m = ws_end_x(v, k);
    let m2 = match line_ending_end_x(v, m) {
        Some(x) => x,
        None => m,
    };
    Ok((m2, (hrs.1, vals)))
}

/// The views of a sequence of parsed Kp rows.
pub open spec fn row_views(s: Seq<(u8, Vec<String>)>) -> Seq<(u8, Seq<Seq<char>>)> {
    s.map_values(|r: (u8, Vec<String>)| (r.0, str_views(r.1@)))
}

/// The run of Kp rows.
pub open spec fn sp_many_kp_rows(s: Seq<char>, i: int) -> Parsed<Seq<(u8, Seq<Seq<char>>)>>
    decreases s.len() - i,
{
    match sp_kp_row(s, i) {
        Parsed::Abort => Parsed::Abort,
        Parsed::Fail => Parsed::Fail,
        Parsed::Val(j, row) => if i < j && j <= s.len() {
            match sp_many_kp_rows(s, j) {
                Parsed::Abort => Parsed::Abort,
                Parsed::Fail => Parsed::Val(j, seq![row]),
                Parsed::Val(m, rows) => Parsed::Val(m, seq![row] + rows),
            }
        } else {
            Parsed::Fail
        },
    }
}

fn many_kp_rows_x(v: &Vec<char>, i: usize) -> (r: Result<(usize, Vec<(u8, Vec<String>)>), ParseErr>)
    requires
        i <= v@.len(),
    ensures
        (match r {
            Ok((j, rows)) => sp_many_kp_rows(v@, i as int) == Parsed::Val(
                j as int,
                row_views(rows@),
            ) && i < j <= v@.len(),
            Err(ParseErr::Soft) => sp_many_kp_rows(v@, i as int) is Fail,
            Err(ParseErr::Hard) => sp_many_kp_rows(v@, i as int) is Abort,
        }),
    decreases v@.len() - i,
{
    match kp_row_x(v, i) {
        Err(e) => Err(e),
        Ok((j, row)) => {
            match many_kp_rows_x(v, j) {
                Err(ParseErr::Hard) => Err(ParseErr::Hard),
                Err(ParseErr::Soft) => {
                    let mut rows: Vec<(u8, Vec<String>)> = Vec::new();
                    rows.push(row);
                    proof {
                        assert(row_views(rows@) =~= seq![(rows@[0].0, str_views(rows@[0].1@))]);
                    }
                    Ok((j, rows))
                },
                Ok((m, mut rest)) => {
                    let ghost rest0 = rest@;
                    let mut rows: Vec<(u8, Vec<String>)> = Vec::new();
                    rows.push(row);
                    rows.append(&mut rest);
                    proof {
                        assert(row_views(rows@) =~= seq![(rows@[0].0, str_views(rows@[0].1@))]
                            + row_views(rest0));
                    }
                    Ok((m, rows))
                },
            }
        },
    }
}

// ---------------------------------------------------------------------------
// The Kp table: positional cross product of rows and date columns, then a
// stable sort on the date key.
// ---------------------------------------------------------------------------
/// The cells of one row, mapped positionally onto the date columns.
pub open spec fn kp_row_entries(
    dates: Seq<Seq<char>>,
    hour: u8,
    vals: Seq<Seq<char>>,
    c: int,
) -> Seq<KpView>
    decreases vals.len() - c,
{
    if c < 0 || c >= vals.len() {
        Seq::empty()
    } else {
        seq![KpView { date: dates[c], hour: hour, value: vals[c] }] + kp_row_entries(
            dates,
            hour,
            vals,
            c + 1,
        )
    }
}

/// All cells of all rows, row-major.
pub open spec fn kp_cross(
    dates: Seq<Seq<char>>,
    rows: Seq<(u8, Seq<Seq<char>>)>,
    t: int,
) -> Seq<KpView>
    decreases rows.len() - t,
{
    if t < 0 || t >= rows.len() {
        Seq::empty()
    } else {
        kp_row_entries(dates, rows[t].0, rows[t].1, 0) + kp_cross(dates, rows, t + 1)
    }
}

fn kp_row_entries_x(dates: &Vec<String>, hour: u8, vals: &Vec<String>, c: usize) -> (r: Vec<
    KPForecast,
>)
    requires
        c <= vals@.len(),
        vals@.len() <= dates@.len(),
    ensures
        kp_views(r@) == kp_row_entries(str_views(dates@), hour, str_views(vals@), c as int),
    decreases vals@.len() - c,
{
    if c == vals.len() {
        let r: Vec<KPForecast> = Vec::new();
        proof {
            assert(kp_views(r@) =~= kp_row_entries(
                str_views(dates@),
                hour,
                str_views(vals@),
                c as int,
            ));
        }
        r
    } else {
        let e = KPForecast { date: dates[c].clone(), hour, value: vals[c].clone() };
        let mut rest = kp_row_entries_x(dates, hour, vals, c + 1);
        let ghost rest0 = rest@;
        let mut r: Vec<KPForecast> = Vec::new();
        r.push(e);
        r.append(&mut rest);
        proof {
            assert(kp_views(r@) =~= seq![r@[0]@] + kp_views(rest0));
        }
        r
    }
}

fn kp_cross_x(dates: &Vec<String>, rows: &Vec<(u8, Vec<String>)>, t: usize) -> (r: Vec<KPForecast>)
    requires
        t <= rows@.len(),
        forall|u: int| 0 <= u < rows@.len() ==> rows@[u].1@.len() <= dates@.len(),
    ensures
        kp_views(r@) == kp_cross(str_views(dates@), row_views(rows@), t as int),
    decreases rows@.len() - t,
{
    if t == rows.len() {
        let r: Vec<KPForecast> = Vec::new();
        proof {
            assert(kp_views(r@) =~= kp_cross(str_views(dates@), row_views(rows@), t as int));
        }
        r
    } else {
        let mut r = kp_row_entries_x(dates, rows[t].0, &rows[t].1, 0);
        let ghost head0 = r@;
        let mut rest = kp_cross_x(dates, rows, t + 1);
        let ghost rest0 = rest@;
        r.append(&mut rest);
        proof {
            assert(kp_views(r@) =~= kp_views(head0) + kp_views(rest0));
        }
        r
    }
}

/// Transitivity of the lexicographic order.
pub proof fn lemma_lex_trans(a: Seq<char>, b: Seq<char>, c: Seq<char>)
    requires
        lex_le(a, b),
        lex_le(b, c),
    ensures
        lex_le(a, c),
    decreases a.len(),
{
    if a.len() != 0 {
        if a[0] == b[0] && b[0] == c[0] {
            lemma_lex_trans(a.skip(1), b.skip(1), c.skip(1));
        }
    }
}

/// Stable insertion of `e` after every entry whose date key is not greater.
pub open spec fn insert_by_date_kp(sorted: Seq<KpView>, e: KpView) -> Seq<KpView>
    decreases sorted.len(),
{
    if sorted.len() == 0 {
        seq![e]
    } else if lex_le(sorted[0].date, e.date) {
        seq![sorted[0]] + insert_by_date_kp(sorted.skip(1), e)
    } else {
        seq![e] + sorted
    }
}

/// Stable insertion sort of the Kp cells, ascending by date key in the plain
/// string order `lex_le`; cells with equal keys keep their order.
pub open spec fn sort_by_date_kp(s: Seq<KpView>) -> Seq<KpView>
    decreases s.len(),
{
    if s.len() == 0 {
        Seq::empty()
    } else {
        insert_by_date_kp(sort_by_date_kp(s.drop_last()), s.last())
    }
}

pub open spec fn kp_sorted(s: Seq<KpView>) -> bool {
    forall|a: int, b: int| 0 <= a < b < s.len() ==> lex_le(s[a].date, s[b].date)
}

proof fn lemma_insert_kp_elems(s: Seq<KpView>, e: KpView, k: int)
    requires
        0 <= k < insert_by_date_kp(s, e).len(),
    ensures
        insert_by_date_kp(s, e)[k] == e || exists|j: int|
            0 <= j < s.len() && insert_by_date_kp(s, e)[k] == s[j],
    decreases s.len(),
{
    if s.len() == 0 {
    } else if lex_le(s[0].date, e.date) {
        if k == 0 {
            assert(insert_by_date_kp(s, e)[0] == s[0]);
        } else {
            lemma_insert_kp_elems(s.skip(1), e, k - 1);
            if insert_by_date_kp(s, e)[k] != e {
                let j = choose|j: int|
                    0 <= j < s.skip(1).len() && insert_by_date_kp(s.skip(1), e)[k - 1] == s.skip(
                        1,
                    )[j];
                assert(insert_by_date_kp(s, e)[k] == s[j + 1]);
            }
        }
    } else {
        if k > 0 {
            assert(insert_by_date_kp(s, e)[k] == s[k - 1]);
        }
    }
}

proof fn lemma_insert_kp_sorted(s: Seq<KpView>, e: KpView)
    requires
        kp_sorted(s),
    ensures
        kp_sorted(insert_by_date_kp(s, e)),
    decreases s.len(),
{
    if s.len() == 0 {
    } else if lex_le(s[0].date, e.date) {
        assert(kp_sorted(s.skip(1)));
        lemma_insert_kp_sorted(s.skip(1), e);
        let r = insert_by_date_kp(s, e);
        assert forall|a: int, b: int| 0 <= a < b < r.len() implies lex_le(
            r[a].date,
            r[b].date,
        ) by {
            if a == 0 {
                lemma_insert_kp_elems(s.skip(1), e, b - 1);
                if r[b] == e {
                } else {
                    let j = choose|j: int|
                        0 <= j < s.skip(1).len() && insert_by_date_kp(s.skip(1), e)[b - 1]
                            == s.skip(1)[j];
                    assert(lex_le(s[0].date, s[j + 1].date));
                }
            }
        }
    } else {
        crate::text::lemma_lex_total(s[0].date, e.date);
        let r = insert_by_date_kp(s, e);
        assert forall|a: int, b: int| 0 <= a < b < r.len() implies lex_le(
            r[a].date,
            r[b].date,
        ) by {
            if a == 0 {
                if b == 1 {
                } else {
                    lemma_lex_trans(e.date, s[0].date, s[b - 1].date);
                }
            }
        }
    }
}

/// The sorted table really is sorted, ascending, by the plain string order
/// on the date key; the sort is not calendar-aware.
pub proof fn lemma_sort_kp_sorted(s: Seq<KpView>)
    ensures
        kp_sorted(sort_by_date_kp(s)),
    decreases s.len(),
{
    if s.len() != 0 {
        lemma_sort_kp_sorted(s.drop_last());
        lemma_insert_kp_sorted(sort_by_date_kp(s.drop_last()), s.last());
    }
}

fn insert_kp_x(sorted: Vec<KPForecast>, e: KPForecast) -> (r: Vec<KPForecast>)
    ensures
        kp_views(r@) == insert_by_date_kp(kp_views(sorted@), e@),
    decreases sorted@.len(),
{
    let ghost sv = sorted@;
    if sorted.len() == 0 {
        let mut r = sorted;
        r.push(e);
        proof {
            assert(kp_views(r@) =~= seq![r@[0]@]);
        }
        r
    } else if lex_le_str(sorted[0].date.as_str(), e.date.as_str()) {
        let mut s2 = sorted;
        let head = s2.remove(0);
        let ghost s2v = s2@;
        let rest = insert_kp_x(s2, e);
        let ghost restv = rest@;
        let mut r: Vec<KPForecast> = Vec::new();
        r.push(head);
        let mut rest = rest;
        r.append(&mut rest);
        proof {
            assert(kp_views(s2v) =~= kp_views(sv).skip(1));
            assert(kp_views(r@) =~= seq![r@[0]@] + kp_views(restv));
        }
        r
    } else {
        let mut r: Vec<KPForecast> = Vec::new();
        r.push(e);
        let mut s2 = sorted;
        r.append(&mut s2);
        proof {
            assert(kp_views(r@) =~= seq![r@[0]@] + kp_views(sv));
        }
        r
    }
}

fn sort_kp_x(v: Vec<KPForecast>) -> (r: Vec<KPForecast>)
    ensures
        kp_views(r@) == sort_by_date_kp(kp_views(v@)),
    decreases v@.len(),
{
    let ghost v0 = v@;
    let mut v = v;
    if v.len() == 0 {
        proof {
            assert(kp_views(v@) =~= Seq::<KpView>::empty());
        }
        v
    } else {
        let last = match v.pop() {
            Some(x) => x,
            None => {
                return v;
            },
        };
        let sorted = sort_kp_x(v);
        proof {
            assert(kp_views(v0.drop_last()) =~= kp_views(v0).drop_last());
        }
        insert_kp_x(sorted, last)
    }
}

/// Every row has exactly one value per date column.
pub open spec fn rows_match_dates_kp(
    dates: Seq<Seq<char>>,
    rows: Seq<(u8, Seq<Seq<char>>)>,
) -> bool {
    forall|t: int| 0 <= t < rows.len() ==> rows[t].1.len() == dates.len()
}

/// The whole Kp section: header and date columns, the rows, the positional
/// cross product, and the stable sort on the date key. A row whose value
/// count differs from the number of date columns is fatal.
pub open spec fn sp_kp_forecast(s: Seq<char>, i: int) -> Parsed<Seq<KpView>> {
    match sp_header(s, i, "NOAA Kp index breakdown"@) {
        Parsed::Fail => Parsed::Fail,
        Parsed::Abort => Parsed::Abort,
        Parsed::Val(j, dates) => match sp_many_kp_rows(s, j) {
            Parsed::Fail => Parsed::Fail,
            Parsed::Abort => Parsed::Abort,
            Parsed::Val(k, rows) => if !rows_match_dates_kp(dates, rows) {
                Parsed::Abort
            } else {
                Parsed::Val(k, sort_by_date_kp(kp_cross(dates, rows, 0)))
            },
        },
    }
}

#[verifier::loop_isolation(false)]
fn kp_forecast_x(v: &Vec<char>, i: usize) -> (r: Result<(usize, Vec<KPForecast>), ParseErr>)
    requires
        i <= v@.len(),
    ensures
        (match r {
            Ok((j, out)) => sp_kp_forecast(v@, i as int) == Parsed::Val(j as int, kp_views(out@))
                && i < j <= v@.len(),
            Err(ParseErr::Soft) => sp_kp_forecast(v@, i as int) is Fail,
            Err(ParseErr::Hard) => sp_kp_forecast(v@, i as int) is Abort,
        }),
{
    let (j, dates) = match header_x(v, i, "NOAA Kp index breakdown") {
        Ok(x) => x,
        Err(_) => {
            return Err(ParseErr::Soft);
        },
    };
    let (k, rows) = match many_kp_rows_x(v, j) {
        Ok(x) => x,
        Err(e) => {
            return Err(e);
        },
    };
    let mut t: usize = 0;
    while t < rows.len()
        invariant
            t <= rows@.len(),
            forall|u: int| 0 <= u < t ==> rows@[u].1@.len() == dates@.len(),
        decreases rows@.len() - t,
    {
        if rows[t].1.len() != dates.len() {
            proof {
                let dv = str_views(dates@);
                let rv = row_views(rows@);
                assert(rv[t as int].1 == str_views(rows@[t as int].1@));
                assert(rv[t as int].1.len() == rows@[t as int].1@.len());
                assert(dv.len() == dates@.len());
                assert(0 <= t < rv.len() && rv[t as int].1.len() != dv.len());
                assert(!rows_match_dates_kp(dv, rv));
            }
            return Err(ParseErr::Hard);
        }
        t = t + 1;
    }
    proof {
        assert(rows_match_dates_kp(str_views(dates@), row_views(rows@)));
    }
    let cells = kp_cross_x(&dates, &rows, 0);
    let out = sort_kp_x(cells);
    Ok((k, out))
}

/// Parses the Kp section of a bulletin: the 3-hour forecast cells, sorted
/// ascending by date key; None when the text does not match the grammar.
pub fn parse_kp_forecast(input: &str) -> (r: Option<Vec<KPForecast>>)
    ensures
        (match r {
            Some(out) => sp_kp_forecast(input@, 0) matches Parsed::Val(j, cells) && kp_views(out@)
                == cells,
            None => !(sp_kp_forecast(input@, 0) matches Parsed::Val(j, cells)),
        }),
{
    let v = str_to_chars(input);
    match kp_forecast_x(&v, 0) {
        Ok((_, out)) => Some(out),
        Err(_) => None,
    }
}

// ---------------------------------------------------------------------------
// Storm rows (solar-radiation and radio-blackout sections).
// ---------------------------------------------------------------------------
/// One percentage: digits and a percent sign. A value that does not fit its
/// type is fatal.
pub open spec fn sp_prcnt(s: Seq<char>, i: int) -> Parsed<u8> {
    let d = digits_end(s, i);
    if d == i {
        Parsed::Fail
    } else if !(d < s.len() && s[d] == '%') {
        Parsed::Fail
    } else if dec_val(s.subrange(i, d)) > 255 {
        Parsed::Abort
    } else {
        Parsed::Val(d + 1, dec_val(s.subrange(i, d)) as u8)
    }
}

fn prcnt_x(v: &Vec<char>, i: usize) -> (r: Result<(usize, u8), ParseErr>)
    requires
        i <= v@.len(),
    ensures
        (match r {
            Ok((j, val)) => sp_prcnt(v@, i as int) == Parsed::Val(j as int, val) && i < j
                <= v@.len(),
            Err(ParseErr::Soft) => sp_prcnt(v@, i as int) is Fail,
            Err(ParseErr::Hard) => sp_prcnt(v@, i as int) is Abort,
        }),
{
    let d = digits_end_x(v, i);
    if d == i {
        return Err(ParseErr::Soft);
    }
    if !(d < v.len() && v[d] == '%') {
        return Err(ParseErr::Soft);
    }
    let c = dec_val_capped(v, i, d);
    if c > 255 {
        return Err(ParseErr::Hard);
    }
    Ok((d + 1, c as u8))
}

/// The capped "or greater" upper grade: one above the lower grade, at most 5.
pub open spec fn or_greater_max(mn: int) -> int {
    if mn + 1 > 5 {
        5
    } else {
        mn + 1
    }
}

/// A grade range "<L><min>", then either " or greater" (upper grade capped
/// one above the lower) or "-<L><max>". A grade that does not fit its type
/// is fatal.
pub open spec fn sp_storm_range(s: Seq<char>, i: int, letter: char) -> Parsed<(u8, u8)> {
    if !(0 <= i && i < s.len() && s[i] == letter) {
        Parsed::Fail
    } else {
        let d = digits_end(s, i + 1);
        if d == i + 1 {
            Parsed::Fail
        } else {
            let mn = dec_val(s.subrange(i + 1, d));
            if mn > 255 {
                Parsed::Abort
            } else if mn == 255 {
                Parsed::Abort
            } else if tag_at(s, d, " or greater"@) {
                Parsed::Val(d + " or greater"@.len(), (mn as u8, or_greater_max(mn as int) as u8))
            } else if d < s.len() && s[d] == '-' && d + 1 < s.len() && s[d + 1] == letter {
                let d2 = digits_end(s, d + 2);
                if d2 == d + 2 {
                    Parsed::Fail
                } else {
                    let mx = dec_val(s.subrange(d + 2, d2));
                    if mx > 255 {
                        Parsed::Abort
                    } else {
                        Parsed::Val(d2, (mn as u8, mx as u8))
                    }
                }
            } else {
                Parsed::Fail
            }
        }
    }
}

fn storm_range_x(v: &Vec<char>, i: usize, letter: char) -> (r: Result<(usize, (u8, u8)), ParseErr>)
    requires
        i <= v@.len(),
    ensures
        (match r {
            Ok((j, rng)) => sp_storm_range(v@, i as int, letter) == Parsed::Val(j as int, rng) && i
                < j <= v@.len(),
            Err(ParseErr::Soft) => sp_storm_range(v@, i as int, letter) is Fail,
            Err(ParseErr::Hard) => sp_storm_range(v@, i as int, letter) is Abort,
        }),
{
    if !(i < v.len() && v[i] == letter) {
        return Err(ParseErr::Soft);
    }
    let d = digits_end_x(v, i + 1);
    if d == i + 1 {
        return Err(ParseErr::Soft);
    }
    let cmn = dec_val_capped(v, i + 1, d);
    if cmn > 255 {
        return Err(ParseErr::Hard);
    }
    if cmn == 255 {
        return Err(ParseErr::Hard);
    }
    let g = " or greater";
    if tag_at_x(v, d, g) {
        let mx: u8 = if cmn + 1 > 5 {
            5
        } else {
            (cmn + 1) as u8
        };
        return Ok((d + g.unicode_len(), (cmn as u8, mx)));
    }
    if d < v.len() && v[d] == '-' && d + 1 < v.len() && v[d + 1] == letter {
        let d2 = digits_end_x(v, d + 2);
        if d2 == d + 2 {
            return Err(ParseErr::Soft);
        }
        let cmx = dec_val_capped(v, d + 2, d2);
        if cmx > 255 {
            return Err(ParseErr::Hard);
        }
        Ok((d2, (cmn as u8, cmx as u8)))
    } else {
        Err(ParseErr::Soft)
    }
}

/// The run of percentages on one row, each preceded by optional spaces.
pub open spec fn sp_many_prcnt(s: Seq<char>, i: int) -> Parsed<Seq<u8>>
    decreases s.len() - i,
{
    let k = space_end(s, i);
    match sp_prcnt(s, k) {
        Parsed::Abort => Parsed::Abort,
        Parsed::Fail => Parsed::Fail,
        Parsed::Val(j, val) => if i < j && j <= s.len() {
            match sp_many_prcnt(s, j) {
                Parsed::Abort => Parsed::Abort,
                Parsed::Fail => Parsed::Val(j, seq![val]),
                Parsed::Val(m, vals) => Parsed::Val(m, seq![val] + vals),
            }
        } else {
            Parsed::Fail
        },
    }
}

fn many_prcnt_x(v: &Vec<char>, i: usize) -> (r: Result<(usize, Vec<u8>), ParseErr>)
    requires
        i <= v@.len(),
    ensures
        (match r {
            Ok((j, vals)) => sp_many_prcnt(v@, i as int) == Parsed::Val(j as int, vals@) && i < j
                <= v@.len(),
            Err(ParseErr::Soft) => sp_many_prcnt(v@, i as int) is Fail,
            Err(ParseErr::Hard) => sp_many_prcnt(v@, i as int) is Abort,
        }),
    decreases v@.len() - i,
{
    let k = space_end_x(v, i);
    match prcnt_x(v, k) {
        Err(e) => Err(e),
        Ok((j, val)) => {
            match many_prcnt_x(v, j) {
                Err(ParseErr::Hard) => Err(ParseErr::Hard),
                Err(ParseErr::Soft) => {
                    let mut vals: Vec<u8> = Vec::new();
                    vals.push(val);
                    proof {
                        assert(vals@ =~= seq![val]);
                    }
                    Ok((j, vals))
                },
                Ok((m, mut rest)) => {
                    let ghost rest0 = rest@;
                    let mut vals: Vec<u8> = Vec::new();
                    vals.push(val);
                    vals.append(&mut rest);
                    proof {
                        assert(vals@ =~= seq![val] + rest0);
                    }
                    Ok((m, vals))
                },
            }
        },
    }
}

/// One storm row: the grade range, the percentages, trailing whitespace and
/// an optional line ending.
pub open spec fn sp_srs_row(s: Seq<char>, i: int, letter: char) -> Parsed<(u8, u8, Seq<u8>)> {
    match sp_storm_range(s, i, letter) {
        Parsed::Fail => Parsed::Fail,
        Parsed::Abort => Parsed::Abort,
        Parsed::Val(j, rng) => match sp_many_prcnt(s, j) {
            Parsed::Fail => Parsed::Fail,
            Parsed::Abort => Parsed::Abort,
            Parsed::Val(k, vals) => {
                let m = ws_end(s, k);
                let m2 = match line_ending_end(s, m) {
                    Some(x) => x,
                    None => m,
                };
                Parsed::Val(m2, (rng.0, rng.1, vals))
            },
        },
    }
}

fn srs_row_x(v: &Vec<char>, i: usize, letter: char) -> (r: Result<
    (usize, (u8, u8, Vec<u8>)),
    ParseErr,
>)
    requires
        i <= v@.len(),
    ensures
        (match r {
            Ok((j, row)) => sp_srs_row(v@, i as int, letter) == Parsed::Val(
                j as int,
                (row.0, row.1, row.2@),
            ) && i < j <= v@.len(),
            Err(ParseErr::Soft) => sp_srs_row(v@, i as int, letter) is Fail,
            Err(ParseErr::Hard) => sp_srs_row(v@, i as int, letter) is Abort,
        }),
{
    let (j, rng) = match storm_range_x(v, i, letter) {
        Ok(x) => x,
        Err(e) => {
            return Err(e);
        },
    };
    let (k, vals) = match many_prcnt_x(v, j) {
        Ok(x) => x,
        Err(e) => {
            return Err(e);
        },
    };
    let m = ws_end_x(v, k);
    let m2 = match line_ending_end_x(v, m) {
        Some(x) => x,
        None => m,
    };
    Ok((m2, (rng.0, rng.1, vals)))
}

/// The views of a sequence of parsed storm rows.
pub open spec fn srs_row_views(s: Seq<(u8, u8, Vec<u8>)>) -> Seq<(u8, u8, Seq<u8>)> {
    s.map_values(|r: (u8, u8, Vec<u8>)| (r.0, r.1, r.2@))
}

/// The run of storm rows.
pub open spec fn sp_many_srs_rows(s: Seq<char>, i: int, letter: char) -> Parsed<
    Seq<(u8, u8, Seq<u8>)>,
>
    decreases s.len() - i,
{
    match sp_srs_row(s, i, letter) {
        Parsed::Abort => Parsed::Abort,
        Parsed::Fail => Parsed::Fail,
        Parsed::Val(j, row) => if i < j && j <= s.len() {
            match sp_many_srs_rows(s, j, letter) {
                Parsed::Abort => Parsed::Abort,
                Parsed::Fail => Parsed::Val(j, seq![row]),
                Parsed::Val(m, rows) => Parsed::Val(m, seq![row] + rows),
            }
        } else {
            Parsed::Fail
        },
    }
}

fn many_srs_rows_x(v: &Vec<char>, i: usize, letter: char) -> (r: Result<
    (usize, Vec<(u8, u8, Vec<u8>)>),
    ParseErr,
>)
    requires
        i <= v@.len(),
    ensures
        (match r {
            Ok((j, rows)) => sp_many_srs_rows(v@, i as int, letter) == Parsed::Val(
                j as int,
                srs_row_views(rows@),
            ) && i < j <= v@.len(),
            Err(ParseErr::Soft) => sp_many_srs_rows(v@, i as int, letter) is Fail,
            Err(ParseErr::Hard) => sp_many_srs_rows(v@, i as int, letter) is Abort,
        }),
    decreases v@.len() - i,
{
    match srs_row_x(v, i, letter) {
        Err(e) => Err(e),
        Ok((j, row)) => {
            match many_srs_rows_x(v, j, letter) {
                Err(ParseErr::Hard) => Err(ParseErr::Hard),
                Err(ParseErr::Soft) => {
                    let mut rows: Vec<(u8, u8, Vec<u8>)> = Vec::new();
                    rows.push(row);
                    proof {
                        assert(srs_row_views(rows@) =~= seq![
                            (rows@[0].0, rows@[0].1, rows@[0].2@),
                        ]);
                    }
                    Ok((j, rows))
                },
                Ok((m, mut rest)) => {
                    let ghost rest0 = rest@;
                    let mut rows: Vec<(u8, u8, Vec<u8>)> = Vec::new();
                    rows.push(row);
                    rows.append(&mut rest);
                    proof {
                        assert(srs_row_views(rows@) =~= seq![(rows@[0].0, rows@[0].1, rows@[0].2@)]
                            + srs_row_views(rest0));
                    }
                    Ok((m, rows))
                },
            }
        },
    }
}

// ---------------------------------------------------------------------------
// Merging storm rows into per-date entries.
// ---------------------------------------------------------------------------
/// `e` with every grade in the inclusive range [mn, mx] set to `v`; the
/// other grades keep their values.
pub open spec fn set_grades(e: SrsView, mn: int, mx: int, v: u8) -> SrsView {
    SrsView {
        date: e.date,
        s1: if mn <= 1 && 1 <= mx {
            v
        } else {
            e.s1
        },
        s2: if mn <= 2 && 2 <= mx {
            v
        } else {
            e.s2
        },
        s3: if mn <= 3 && 3 <= mx {
            v
        } else {
            e.s3
        },
        s4: if mn <= 4 && 4 <= mx {
            v
        } else {
            e.s4
        },
        s5: if mn <= 5 && 5 <= mx {
            v
        } else {
            e.s5
        },
    }
}

/// Sets every grade of the inclusive range [mn, mx] to `val`: the grades the
/// row covers get the row's percentage, the others are untouched.
pub fn apply_grades(e: SRSRBForecast, mn: u8, mx: u8, val: u8) -> (r: SRSRBForecast)
    ensures
        r@ == set_grades(e@, mn as int, mx as int, val),
{
    let mut e = e;
    if mn <= 1 && 1 <= mx {
        e.s1 = val;
    }
    if mn <= 2 && 2 <= mx {
        e.s2 = val;
    }
    if mn <= 3 && 3 <= mx {
        e.s3 = val;
    }
    if mn <= 4 && 4 <= mx {
        e.s4 = val;
    }
    if mn <= 5 && 5 <= mx {
        e.s5 = val;
    }
    e
}

/// The index of the last entry with the given date key, if any.
pub open spec fn rfind_date(s: Seq<SrsView>, d: Seq<char>) -> Option<int>
    decreases s.len(),
{
    if s.len() == 0 {
        None
    } else if s.last().date == d {
        Some(s.len() - 1)
    } else {
        rfind_date(s.drop_last(), d)
    }
}

#[verifier::loop_isolation(false)]
fn rfind_date_x(v: &Vec<SRSRBForecast>, d: &String) -> (r: Option<usize>)
    ensures
        (match r {
            Some(i) => rfind_date(srs_views(v@), d@) == Some(i as int) && i < v@.len(),
            None => rfind_date(srs_views(v@), d@) is None,
        }),
{
    let mut i: usize = v.len();
    proof {
        assert(srs_views(v@).take(i as int) =~= srs_views(v@));
    }
    while i > 0
        invariant
            i <= v@.len(),
            rfind_date(srs_views(v@), d@) == rfind_date(
                srs_views(v@).take(i as int),
                d@,
            ),
        decreases i,
    {
        let ghost pre = srs_views(v@).take(i as int);
        if v[i - 1].date == *d {
            proof {
                assert(pre.last() == v@[i - 1]@);
            }
            return Some(i - 1);
        }
        proof {
            assert(pre.drop_last() =~= srs_views(v@).take(i - 1));
        }
        i = i - 1;
    }
    proof {
        assert(srs_views(v@).take(0) =~= Seq::<SrsView>::empty());
    }
    None
}

/// One row's percentages merged into the accumulated entries: for each date
/// column, the entry with that date (the last one, or a fresh zeroed entry)
/// gets the covered grades set to that column's percentage.
pub open spec fn merge_vals(
    acc: Seq<SrsView>,
    dates: Seq<Seq<char>>,
    mn: int,
    mx: int,
    vals: Seq<u8>,
    c: int,
) -> Seq<SrsView>
    decreases vals.len() - c,
{
    if c < 0 || c >= vals.len() {
        acc
    } else {
        let acc2 = match rfind_date(acc, dates[c]) {
            Some(idx) => acc.update(idx, set_grades(acc[idx], mn, mx, vals[c])),
            None => acc.push(
                set_grades(
                    SrsView { date: dates[c], s1: 0, s2: 0, s3: 0, s4: 0, s5: 0 },
                    mn,
                    mx,
                    vals[c],
                ),
            ),
        };
        merge_vals(acc2, dates, mn, mx, vals, c + 1)
    }
}

/// All rows merged, in order.
pub open spec fn merge_rows(
    acc: Seq<SrsView>,
    dates: Seq<Seq<char>>,
    rows: Seq<(u8, u8, Seq<u8>)>,
    t: int,
) -> Seq<SrsView>
    decreases rows.len() - t,
{
    if t < 0 || t >= rows.len() {
        acc
    } else {
        merge_rows(
            merge_vals(acc, dates, rows[t].0 as int, rows[t].1 as int, rows[t].2, 0),
            dates,
            rows,
            t + 1,
        )
    }
}

#[verifier::loop_isolation(false)]
fn merge_vals_x(acc: &mut Vec<SRSRBForecast>, dates: &Vec<String>, mn: u8, mx: u8, vals: &Vec<u8>)
    requires
        vals@.len() <= dates@.len(),
    ensures
        srs_views(final(acc)@) == merge_vals(
            srs_views(old(acc)@),
            str_views(dates@),
            mn as int,
            mx as int,
            vals@,
            0,
        ),
{
    let ghost dv = str_views(dates@);
    let ghost goal = merge_vals(srs_views(old(acc)@), dv, mn as int, mx as int, vals@, 0);
    let mut c: usize = 0;
    while c < vals.len()
        invariant
            c <= vals@.len(),
            goal == merge_vals(srs_views(acc@), dv, mn as int, mx as int, vals@, c as int),
        decreases vals@.len() - c,
    {
        let ghost prev = srs_views(acc@);
        match rfind_date_x(acc, &dates[c]) {
            Some(idx) => {
                let cur = acc.remove(idx);
                let cur2 = apply_grades(cur, mn, mx, vals[c]);
                acc.insert(idx, cur2);
                proof {
                    assert(dv[c as int] == dates@[c as int]@);
                    assert(srs_views(acc@) =~= prev.update(
                        idx as int,
                        set_grades(prev[idx as int], mn as int, mx as int, vals@[c as int]),
                    ));
                }
            },
            None => {
                let e = SRSRBForecast::zeroed(dates[c].clone());
                let e2 = apply_grades(e, mn, mx, vals[c]);
                acc.push(e2);
                proof {
                    assert(dv[c as int] == dates@[c as int]@);
                    assert(srs_views(acc@) =~= prev.push(
                        set_grades(
                            SrsView { date: dv[c as int], s1: 0, s2: 0, s3: 0, s4: 0, s5: 0 },
                            mn as int,
                            mx as int,
                            vals@[c as int],
                        ),
                    ));
                }
            },
        }
        c = c + 1;
    }
}

#[verifier::loop_isolation(false)]
fn merge_rows_x(dates: &Vec<String>, rows: &Vec<(u8, u8, Vec<u8>)>) -> (r: Vec<SRSRBForecast>)
    requires
        forall|t: int| 0 <= t < rows@.len() ==> rows@[t].2@.len() <= dates@.len(),
    ensures
        srs_views(r@) == merge_rows(Seq::empty(), str_views(dates@), srs_row_views(rows@), 0),
{
    let ghost dv = str_views(dates@);
    let ghost rv = srs_row_views(rows@);
    let mut acc: Vec<SRSRBForecast> = Vec::new();
    proof {
        assert(srs_views(acc@) =~= Seq::<SrsView>::empty());
    }
    let ghost goal = merge_rows(Seq::empty(), dv, rv, 0);
    let mut t: usize = 0;
    while t < rows.len()
        invariant
            t <= rows@.len(),
            goal == merge_rows(srs_views(acc@), dv, rv, t as int),
        decreases rows@.len() - t,
    {
        proof {
            assert(rv[t as int] == (rows@[t as int].0, rows@[t as int].1, rows@[t as int].2@));
        }
        merge_vals_x(&mut acc, dates, rows[t].0, rows[t].1, &rows[t].2);
        t = t + 1;
    }
    acc
}

// ---------------------------------------------------------------------------
// Sorting the storm entries.
// ---------------------------------------------------------------------------
/// Stable insertion of `e` after every entry whose date key is not greater.
pub open spec fn insert_by_date_srs(sorted: Seq<SrsView>, e: SrsView) -> Seq<SrsView>
    decreases sorted.len(),
{
    if sorted.len() == 0 {
        seq![e]
    } else if lex_le(sorted[0].date, e.date) {
        seq![sorted[0]] + insert_by_date_srs(sorted.skip(1), e)
    } else {
        seq![e] + sorted
    }
}

/// Stable insertion sort of the storm entries, ascending by date key in the
/// plain string order `lex_le`.
pub open spec fn sort_by_date_srs(s: Seq<SrsView>) -> Seq<SrsView>
    decreases s.len(),
{
    if s.len() == 0 {
        Seq::empty()
    } else {
        insert_by_date_srs(sort_by_date_srs(s.drop_last()), s.last())
    }
}

pub open spec fn srs_sorted(s: Seq<SrsView>) -> bool {
    forall|a: int, b: int| 0 <= a < b < s.len() ==> lex_le(s[a].date, s[b].date)
}

proof fn lemma_insert_srs_elems(s: Seq<SrsView>, e: SrsView, k: int)
    requires
        0 <= k < insert_by_date_srs(s, e).len(),
    ensures
        insert_by_date_srs(s, e)[k] == e || exists|j: int|
            0 <= j < s.len() && insert_by_date_srs(s, e)[k] == s[j],
    decreases s.len(),
{
    if s.len() == 0 {
    } else if lex_le(s[0].date, e.date) {
        if k == 0 {
            assert(insert_by_date_srs(s, e)[0] == s[0]);
        } else {
            lemma_insert_srs_elems(s.skip(1), e, k - 1);
            if insert_by_date_srs(s, e)[k] != e {
                let j = choose|j: int|
                    0 <= j < s.skip(1).len() && insert_by_date_srs(s.skip(1), e)[k - 1] == s.skip(
                        1,
                    )[j];
                assert(insert_by_date_srs(s, e)[k] == s[j + 1]);
            }
        }
    } else {
        if k > 0 {
            assert(insert_by_date_srs(s, e)[k] == s[k - 1]);
        }
    }
}

proof fn lemma_insert_srs_sorted(s: Seq<SrsView>, e: SrsView)
    requires
        srs_sorted(s),
    ensures
        srs_sorted(insert_by_date_srs(s, e)),
    decreases s.len(),
{
    if s.len() == 0 {
    } else if lex_le(s[0].date, e.date) {
        assert(srs_sorted(s.skip(1)));
        lemma_insert_srs_sorted(s.skip(1), e);
        let r = insert_by_date_srs(s, e);
        assert forall|a: int, b: int| 0 <= a < b < r.len() implies lex_le(
            r[a].date,
            r[b].date,
        ) by {
            if a == 0 {
                lemma_insert_srs_elems(s.skip(1), e, b - 1);
                if r[b] == e {
                } else {
                    let j = choose|j: int|
                        0 <= j < s.skip(1).len() && insert_by_date_srs(s.skip(1), e)[b - 1]
                            == s.skip(1)[j];
                    assert(lex_le(s[0].date, s[j + 1].date));
                }
            }
        }
    } else {
        crate::text::lemma_lex_total(s[0].date, e.date);
        let r = insert_by_date_srs(s, e);
        assert forall|a: int, b: int| 0 <= a < b < r.len() implies lex_le(
            r[a].date,
            r[b].date,
        ) by {
            if a == 0 {
                if b == 1 {
                } else {
                    lemma_lex_trans(e.date, s[0].date, s[b - 1].date);
                }
            }
        }
    }
}

/// The sorted storm table really is sorted, ascending, by the plain string
/// order on the date key; the sort is not calendar-aware.
pub proof fn lemma_sort_srs_sorted(s: Seq<SrsView>)
    ensures
        srs_sorted(sort_by_date_srs(s)),
    decreases s.len(),
{
    if s.len() != 0 {
        lemma_sort_srs_sorted(s.drop_last());
        lemma_insert_srs_sorted(sort_by_date_srs(s.drop_last()), s.last());
    }
}

fn insert_srs_x(sorted: Vec<SRSRBForecast>, e: SRSRBForecast) -> (r: Vec<SRSRBForecast>)
    ensures
        srs_views(r@) == insert_by_date_srs(srs_views(sorted@), e@),
    decreases sorted@.len(),
{
    let ghost sv = sorted@;
    if sorted.len() == 0 {
        let mut r = sorted;
        r.push(e);
        proof {
            assert(srs_views(r@) =~= seq![r@[0]@]);
        }
        r
    } else if lex_le_str(sorted[0].date.as_str(), e.date.as_str()) {
        let mut s2 = sorted;
        let head = s2.remove(0);
        let ghost s2v = s2@;
        let rest = insert_srs_x(s2, e);
        let ghost restv = rest@;
        let mut r: Vec<SRSRBForecast> = Vec::new();
        r.push(head);
        let mut rest = rest;
        r.append(&mut rest);
        proof {
            assert(srs_views(s2v) =~= srs_views(sv).skip(1));
            assert(srs_views(r@) =~= seq![r@[0]@] + srs_views(restv));
        }
        r
    } else {
        let mut r: Vec<SRSRBForecast> = Vec::new();
        r.push(e);
        let mut s2 = sorted;
        r.append(&mut s2);
        proof {
            assert(srs_views(r@) =~= seq![r@[0]@] + srs_views(sv));
        }
        r
    }
}

fn sort_srs_x(v: Vec<SRSRBForecast>) -> (r: Vec<SRSRBForecast>)
    ensures
        srs_views(r@) == sort_by_date_srs(srs_views(v@)),
    decreases v@.len(),
{
    let ghost v0 = v@;
    let mut v = v;
    if v.len() == 0 {
        proof {
            assert(srs_views(v@) =~= Seq::<SrsView>::empty());
        }
        v
    } else {
        let last = match v.pop() {
            Some(x) => x,
            None => {
                return v;
            },
        };
        let sorted = sort_srs_x(v);
        proof {
            assert(srs_views(v0.drop_last()) =~= srs_views(v0).drop_last());
        }
        insert_srs_x(sorted, last)
    }
}

// ---------------------------------------------------------------------------
// Whole sections and the whole bulletin.
// ---------------------------------------------------------------------------
/// Every row's grade range lies inside 1..=5.
pub open spec fn grades_ok(rows: Seq<(u8, u8, Seq<u8>)>) -> bool {
    forall|t: int| 0 <= t < rows.len() ==> 1 <= (#[trigger] rows[t]).0 <= 5 && 1 <= rows[t].1 <= 5
}

/// Every row has exactly one percentage per date column.
pub open spec fn rows_match_dates_srs(
    dates: Seq<Seq<char>>,
    rows: Seq<(u8, u8, Seq<u8>)>,
) -> bool {
    forall|t: int| 0 <= t < rows.len() ==> rows[t].2.len() == dates.len()
}

/// A whole storm section: header and date columns, the rows, the merge into
/// per-date entries, and the stable sort on the date key. A row whose
/// percentage count differs from the number of date columns, or whose grade
/// range leaves 1..=5, is fatal.
pub open spec fn sp_srs_rb_forecast(s: Seq<char>, i: int, h: Seq<char>, letter: char) -> Parsed<
    Seq<SrsView>,
> {
    match sp_header(s, i, h) {
        Parsed::Fail => Parsed::Fail,
        Parsed::Abort => Parsed::Abort,
        Parsed::Val(j, dates) => match sp_many_srs_rows(s, j, letter) {
            Parsed::Fail => Parsed::Fail,
            Parsed::Abort => Parsed::Abort,
            Parsed::Val(k, rows) => if !rows_match_dates_srs(dates, rows) || !grades_ok(rows) {
                Parsed::Abort
            } else {
                Parsed::Val(k, sort_by_date_srs(merge_rows(Seq::empty(), dates, rows, 0)))
            },
        },
    }
}

#[verifier::loop_isolation(false)]
fn srs_rb_forecast_x(v: &Vec<char>, i: usize, h: &str, letter: char) -> (r: Result<
    (usize, Vec<SRSRBForecast>),
    ParseErr,
>)
    requires
        i <= v@.len(),
    ensures
        (match r {
            Ok((j, out)) => sp_srs_rb_forecast(v@, i as int, h@, letter) == Parsed::Val(
                j as int,
                srs_views(out@),
            ) && i < j <= v@.len(),
            Err(ParseErr::Soft) => sp_srs_rb_forecast(v@, i as int, h@, letter) is Fail,
            Err(ParseErr::Hard) => sp_srs_rb_forecast(v@, i as int, h@, letter) is Abort,
        }),
{
    let (j, dates) = match header_x(v, i, h) {
        Ok(x) => x,
        Err(_) => {
            return Err(ParseErr::Soft);
        },
    };
    let (k, rows) = match many_srs_rows_x(v, j, letter) {
        Ok(x) => x,
        Err(e) => {
            return Err(e);
        },
    };
    let mut t: usize = 0;
    while t < rows.len()
        invariant
            t <= rows@.len(),
            forall|u: int|
                0 <= u < t ==> rows@[u].2@.len() == dates@.len() && 1 <= rows@[u].0 <= 5 && 1
                    <= rows@[u].1 <= 5,
        decreases rows@.len() - t,
    {
        let ghost dv = str_views(dates@);
        let ghost rv = srs_row_views(rows@);
        if rows[t].2.len() != dates.len() {
            proof {
                assert(rv[t as int].2.len() != dv.len());
                assert(!rows_match_dates_srs(dv, rv));
            }
            return Err(ParseErr::Hard);
        }
        if !(1 <= rows[t].0 && rows[t].0 <= 5 && 1 <= rows[t].1 && rows[t].1 <= 5) {
            proof {
                assert(!(1 <= rv[t as int].0 <= 5 && 1 <= rv[t as int].1 <= 5));
                assert(!grades_ok(rv));
            }
            return Err(ParseErr::Hard);
        }
        t = t + 1;
    }
    proof {
        assert(rows_match_dates_srs(str_views(dates@), srs_row_views(rows@)));
        assert(grades_ok(srs_row_views(rows@)));
    }
    let merged = merge_rows_x(&dates, &rows);
    let out = sort_srs_x(merged);
    Ok((k, out))
}

/// Parses the solar-radiation-storm section of a bulletin: per-date entries
/// with the covered grades filled in, sorted ascending by date key; None
/// when the text does not match the grammar.
pub fn parse_srs_forecast(input: &str) -> (r: Option<Vec<SRSRBForecast>>)
    ensures
        (match r {
            Some(out) => sp_srs_rb_forecast(input@, 0, "Solar Radiation Storm Forecast"@, 'S')
                matches Parsed::Val(j, entries) && srs_views(out@) == entries,
            None => !(sp_srs_rb_forecast(input@, 0, "Solar Radiation Storm Forecast"@, 'S')
                matches Parsed::Val(j, entries)),
        }),
{
    let v = str_to_chars(input);
    match srs_rb_forecast_x(&v, 0, "Solar Radiation Storm Forecast", 'S') {
        Ok((_, out)) => Some(out),
        Err(_) => None,
    }
}

/// Parses the radio-blackout section of a bulletin, in the same shape as the
/// solar-radiation section.
pub fn parse_rb_forecast(input: &str) -> (r: Option<Vec<SRSRBForecast>>)
    ensures
        (match r {
            Some(out) => sp_srs_rb_forecast(input@, 0, "Radio Blackout Forecast"@, 'R')
                matches Parsed::Val(j, entries) && srs_views(out@) == entries,
            None => !(sp_srs_rb_forecast(input@, 0, "Radio Blackout Forecast"@, 'R')
                matches Parsed::Val(j, entries)),
        }),
{
    let v = str_to_chars(input);
    match srs_rb_forecast_x(&v, 0, "Radio Blackout Forecast", 'R') {
        Ok((_, out)) => Some(out),
        Err(_) => None,
    }
}

/// The whole bulletin: the Kp section, then the solar-radiation section in
/// the remainder, then the radio-blackout section in what is left. Any
/// failure yields nothing: no partial tables.
pub open spec fn sp_parse_sw(s: Seq<char>) -> Option<SwView> {
    match sp_kp_forecast(s, 0) {
        Parsed::Val(p1, kp) => match sp_srs_rb_forecast(
            s,
            p1,
            "Solar Radiation Storm Forecast"@,
            'S',
        ) {
            Parsed::Val(p2, srs) => match sp_srs_rb_forecast(
                s,
                p2,
                "Radio Blackout Forecast"@,
                'R',
            ) {
                Parsed::Val(p3, rb) => Some(SwView { kp, srs, rb }),
                _ => None,
            },
            _ => None,
        },
        _ => None,
    }
}

/// Law: the Kp cells of any successful parse of the Kp section are sorted
/// ascending by date key in the plain string order, not calendar order.
pub proof fn lemma_kp_forecast_sorted(s: Seq<char>, i: int)
    ensures
        sp_kp_forecast(s, i) matches Parsed::Val(j, cells) ==> kp_sorted(cells),
{
    match sp_header(s, i, "NOAA Kp index breakdown"@) {
        Parsed::Val(j, dates) => match sp_many_kp_rows(s, j) {
            Parsed::Val(k, rows) => {
                if rows_match_dates_kp(dates, rows) {
                    lemma_sort_kp_sorted(kp_cross(dates, rows, 0));
                }
            },
            _ => {},
        },
        _ => {},
    }
}

/// Law: the entries of any successful parse of a storm section are sorted
/// ascending by date key in the plain string order, not calendar order.
pub proof fn lemma_srs_rb_forecast_sorted(s: Seq<char>, i: int, h: Seq<char>, letter: char)
    ensures
        sp_srs_rb_forecast(s, i, h, letter) matches Parsed::Val(j, entries) ==> srs_sorted(
            entries,
        ),
{
    match sp_header(s, i, h) {
        Parsed::Val(j, dates) => match sp_many_srs_rows(s, j, letter) {
            Parsed::Val(k, rows) => {
                if rows_match_dates_srs(dates, rows) && grades_ok(rows) {
                    lemma_sort_srs_sorted(merge_rows(Seq::empty(), dates, rows, 0));
                }
            },
            _ => {},
        },
        _ => {},
    }
}

/// Parses a three-day space-weather bulletin into its three tables; every
/// grammar failure is the single hard error.
pub fn parse_sw_forecast(input: &str) -> (r: Result<SWForecast, String>)
    ensures
        (match r {
            Ok(f) => sp_parse_sw(input@) == Some(f@),
            Err(e) => sp_parse_sw(input@) is None && e@ == "Failed to parse text"@,
        }),
{
    let v = str_to_chars(input);
    let (p1, kp) = match kp_forecast_x(&v, 0) {
        Ok(x) => x,
        Err(_) => {
            return Err(String::from_str("Failed to parse text"));
        },
    };
    let (p2, srs) = match srs_rb_forecast_x(&v, p1, "Solar Radiation Storm Forecast", 'S') {
        Ok(x) => x,
        Err(_) => {
            return Err(String::from_str("Failed to parse text"));
        },
    };
    let (_, rb) = match srs_rb_forecast_x(&v, p2, "Radio Blackout Forecast", 'R') {
        Ok(x) => x,
        Err(_) => {
            return Err(String::from_str("Failed to parse text"));
        },
    };
    Ok(SWForecast { kp, srs, rb })
}

} // verus!
