//! The command parser: one drawing instruction per text line.
//!
//! Input is split at newlines.  Each line is trimmed and tried against an
//! ordered set of fixed-keyword grammars — `box x1 y1 x2 y2`,
//! `line x1 y1 x2 y2`, `circle x y r`, `color r g b`, `fill n`,
//! `curve x1 y1 x2 y2 x3 y3`, `font scale name`, `text x y string`,
//! `comment string` — and the first grammar that matches dispatches to the
//! corresponding builder call.  A line matching no grammar (blank lines and
//! `#` comments included) is silently skipped: tolerant parsing is the
//! deliberate policy, not an error.  Numeric fields are decimal, with an
//! optional sign and fraction; fraction digits beyond the thousandths are
//! read but ignored.  The trailing argument of `text`, `font` and `comment`
//! consumes the remainder of the line.

use crate::decimal::{digit_val, is_digit};
use crate::model::{
    spec_add_box, spec_add_circle, spec_add_comment, spec_add_curve, spec_add_line, spec_add_text,
    spec_set_color, spec_set_fill, spec_set_font, ToolView,
};
use crate::render::spec_render;
use vstd::prelude::*;

verus! {

/// In-line whitespace: blank, tab, or the carriage return of a Windows line
/// ending.
pub open spec fn is_ws(c: char) -> bool {
    c == ' ' || c == '\t' || c == '\r'
}

/// The first position at or after `i` holding something other than
/// whitespace (or the end of the line).
pub open spec fn skip_ws(l: Seq<char>, i: int) -> int
    decreases l.len() - i,
{
    if i < 0 || i >= l.len() || !is_ws(l[i]) {
        i
    } else {
        skip_ws(l, i + 1)
    }
}

/// The first position at or after `i` holding something other than a
/// decimal digit (or the end of the line).
pub open spec fn digits_end(l: Seq<char>, i: int) -> int
    decreases l.len() - i,
{
    if i < 0 || i >= l.len() || !is_digit(l[i]) {
        i
    } else {
        digits_end(l, i + 1)
    }
}

/// The position after dropping trailing whitespace from `l[..j]`.
pub open spec fn trim_hi(l: Seq<char>, j: int) -> int
    decreases j,
{
    if j <= 0 || !is_ws(l[j - 1]) {
        j
    } else {
        trim_hi(l, j - 1)
    }
}

/// The line with leading and trailing whitespace removed.
pub open spec fn trim(l: Seq<char>) -> Seq<char> {
    let lo = skip_ws(l, 0);
    let hi = trim_hi(l, l.len() as int);
    if hi <= lo {
        Seq::empty()
    } else {
        l.subrange(lo, hi)
    }
}

/// The value of the decimal digit run `l[i..j)`.
pub open spec fn digits_val(l: Seq<char>, i: int, j: int) -> int
    decreases j - i,
{
    if j <= i {
        0
    } else {
        digits_val(l, i, j - 1) * 10 + digit_val(l[j - 1])
    }
}

/// The thousandths encoded by the fraction digit run `l[fs..fe)`: the first
/// three digits weighted by hundred, ten and one; further digits are
/// ignored.
pub open spec fn frac_val(l: Seq<char>, fs: int, fe: int) -> int {
    if fe - fs <= 0 {
        0
    } else if fe - fs == 1 {
        digit_val(l[fs]) * 100
    } else if fe - fs == 2 {
        digit_val(l[fs]) * 100 + digit_val(l[fs + 1]) * 10
    } else {
        digit_val(l[fs]) * 100 + digit_val(l[fs + 1]) * 10 + digit_val(l[fs + 2])
    }
}

/// Reads one decimal number token starting at or after `i`: optional sign,
/// digits, optional point and fraction digits.  Returns the value in
/// thousandths and the position just past the token, or nothing when the
/// token is absent, malformed, not followed by whitespace or the line end,
/// or out of the accepted coordinate range.
pub open spec fn spec_number(l: Seq<char>, i: int) -> Option<(int, int)> {
    let p0 = skip_ws(l, i);
    if p0 >= l.len() {
        None
    } else {
        let neg = l[p0] == '-';
        let p1 = if l[p0] == '-' || l[p0] == '+' {
            p0 + 1
        } else {
            p0
        };
        let ie = digits_end(l, p1);
        let has_frac = ie < l.len() && l[ie] == '.';
        let fs = if has_frac {
            ie + 1
        } else {
            ie
        };
        let fe = if has_frac {
            digits_end(l, fs)
        } else {
            ie
        };
        if fe < l.len() && !is_ws(l[fe]) {
            None
        } else if ie == p1 && fe == fs {
            None
        } else {
            let m = digits_val(l, p1, ie) * 1000 + frac_val(l, fs, fe);
            if m > 1_000_000_000 {
                None
            } else if neg {
                Some((-m, fe))
            } else {
                Some((m, fe))
            }
        }
    }
}

/// Reads `k` consecutive number tokens, returning their values and the
/// position just past the last one.
pub open spec fn nums_chain(l: Seq<char>, i: int, k: int) -> Option<(Seq<int>, int)>
    decreases k,
{
    if k <= 0 {
        Some((Seq::empty(), i))
    } else {
        match spec_number(l, i) {
            None => None,
            Some((v, j)) => match nums_chain(l, j, k - 1) {
                None => None,
                Some((vs, e)) => Some((seq![v] + vs, e)),
            },
        }
    }
}

/// Reads one unsigned integer token (for the fill grammar): whether it is
/// nonzero, and the position just past it.
pub open spec fn spec_uint_nonzero(l: Seq<char>, i: int) -> Option<(bool, int)> {
    let p0 = skip_ws(l, i);
    let de = digits_end(l, p0);
    if p0 >= l.len() || de == p0 {
        None
    } else if de < l.len() && !is_ws(l[de]) {
        None
    } else {
        Some((digits_val(l, p0, de) != 0, de))
    }
}

/// The remainder of the line from the first non-blank position at or after
/// `i`; nothing when only whitespace remains.
pub open spec fn rest_after(l: Seq<char>, i: int) -> Option<Seq<char>> {
    let s0 = skip_ws(l, i);
    if s0 >= l.len() {
        None
    } else {
        Some(l.subrange(s0, l.len() as int))
    }
}

/// Whether the line begins with the keyword as its own whitespace-delimited
/// token.
pub open spec fn match_kw(l: Seq<char>, kw: Seq<char>) -> bool {
    &&& l.len() >= kw.len()
    &&& l.subrange(0, kw.len() as int) == kw
    &&& (l.len() == kw.len() || is_ws(l[kw.len() as int]))
}

/// The four corner arguments of a box or line command, when the trimmed
/// line matches that grammar.
pub open spec fn quad_line(t: Seq<char>, kw: Seq<char>) -> Option<(int, int, int, int)> {
    if !match_kw(t, kw) {
        None
    } else {
        match nums_chain(t, kw.len() as int, 4) {
            None => None,
            Some((vs, _)) => Some((vs[0], vs[1], vs[2], vs[3])),
        }
    }
}

/// The three numeric arguments of a circle or color command.
pub open spec fn triple_line(t: Seq<char>, kw: Seq<char>) -> Option<(int, int, int)> {
    if !match_kw(t, kw) {
        None
    } else {
        match nums_chain(t, kw.len() as int, 3) {
            None => None,
            Some((vs, _)) => Some((vs[0], vs[1], vs[2])),
        }
    }
}

/// The six control-point arguments of a curve command.
pub open spec fn six_line(t: Seq<char>, kw: Seq<char>) -> Option<(int, int, int, int, int, int)> {
    if !match_kw(t, kw) {
        None
    } else {
        match nums_chain(t, kw.len() as int, 6) {
            None => None,
            Some((vs, _)) => Some((vs[0], vs[1], vs[2], vs[3], vs[4], vs[5])),
        }
    }
}

/// The effect of one (untrimmed) command line on the builder state: the
/// first grammar that matches the trimmed line wins; a line matching none is
/// skipped.
pub open spec fn process_line(v: ToolView, raw: Seq<char>) -> ToolView {
    let t = trim(raw);
    if quad_line(t, "box"@) is Some {
        let (a, b, c, d) = quad_line(t, "box"@)->Some_0;
        spec_add_box(v, a, b, c, d)
    } else if quad_line(t, "line"@) is Some {
        let (a, b, c, d) = quad_line(t, "line"@)->Some_0;
        spec_add_line(v, a, b, c, d)
    } else if triple_line(t, "circle"@) is Some {
        let (x, y, r) = triple_line(t, "circle"@)->Some_0;
        spec_add_circle(v, x, y, r)
    } else if triple_line(t, "color"@) is Some {
        let (r, g, b) = triple_line(t, "color"@)->Some_0;
        spec_set_color(v, r, g, b, 1000)
    } else if match_kw(t, "fill"@) && spec_uint_nonzero(t, "fill"@.len() as int) is Some {
        let (on, _) = spec_uint_nonzero(t, "fill"@.len() as int)->Some_0;
        spec_set_fill(v, on)
    } else if six_line(t, "curve"@) is Some {
        let (x1, y1, x2, y2, x3, y3) = six_line(t, "curve"@)->Some_0;
        spec_add_curve(v, x1, y1, x2, y2, x3, y3)
    } else if font_line(t) is Some {
        let (sc, name) = font_line(t)->Some_0;
        spec_set_font(v, sc, name)
    } else if text_line(t) is Some {
        let (x, y, s) = text_line(t)->Some_0;
        spec_add_text(v, x, y, s)
    } else if match_kw(t, "comment"@) && rest_after(t, "comment"@.len() as int) is Some {
        spec_add_comment(v, rest_after(t, "comment"@.len() as int)->Some_0)
    } else {
        v
    }
}

/// The font size and name of a font command, when the trimmed line matches
/// that grammar.
pub open spec fn font_line(t: Seq<char>) -> Option<(int, Seq<char>)> {
    if !match_kw(t, "font"@) {
        None
    } else {
        match spec_number(t, "font"@.len() as int) {
            None => None,
            Some((sc, j)) => match rest_after(t, j) {
                None => None,
                Some(name) => Some((sc, name)),
            },
        }
    }
}

/// The position and payload of a text command, when the trimmed line
/// matches that grammar.
pub open spec fn text_line(t: Seq<char>) -> Option<(int, int, Seq<char>)> {
    if !match_kw(t, "text"@) {
        None
    } else {
        match nums_chain(t, "text"@.len() as int, 2) {
            None => None,
            Some((vs, j)) => match rest_after(t, j) {
                None => None,
                Some(s) => Some((vs[0], vs[1], s)),
            },
        }
    }
}

/// The position of the first newline at or after `i`, or the end of the
/// input.
pub open spec fn line_end(s: Seq<char>, i: int) -> int
    decreases s.len() - i,
{
    if i < 0 || i >= s.len() || s[i] == '\n' {
        i
    } else {
        line_end(s, i + 1)
    }
}

/// The newline search stays between its start and the end of the input.
pub proof fn lemma_line_end_bounds(s: Seq<char>, i: int)
    requires
        0 <= i <= s.len(),
    ensures
        i <= line_end(s, i) <= s.len(),
    decreases s.len() - i,
{
    if i < s.len() && s[i] != '\n' {
        lemma_line_end_bounds(s, i + 1);
    }
}

/// A stretch free of newlines that ends at a newline or at the end of the
/// input pins the newline search down.
pub proof fn lemma_line_end_at(s: Seq<char>, i: int, e: int)
    requires
        0 <= i <= e <= s.len(),
        forall|k: int| i <= k < e ==> s[k] != '\n',
        e == s.len() || s[e] == '\n',
    ensures
        line_end(s, i) == e,
    decreases e - i,
{
    if i < e {
        lemma_line_end_at(s, i + 1, e);
    }
}

/// The effect of a whole command text on the builder state, processing one
/// line at a time from position `i`: end of input terminates parsing with no
/// error.
pub open spec fn spec_parse_from(v: ToolView, s: Seq<char>, i: int) -> ToolView
    decreases s.len() - i + 1,
    via spec_parse_from_dec
{
    if i < 0 || i >= s.len() {
        v
    } else {
        let e = line_end(s, i);
        spec_parse_from(process_line(v, s.subrange(i, e)), s, e + 1)
    }
}

#[via_fn]
proof fn spec_parse_from_dec(v: ToolView, s: Seq<char>, i: int) {
    if 0 <= i < s.len() {
        lemma_line_end_bounds(s, i);
    }
}

/// The effect of a whole command text on the builder state.
pub open spec fn spec_parse(v: ToolView, s: Seq<char>) -> ToolView {
    spec_parse_from(v, s, 0)
}

/// Whether the character is in-line whitespace.
fn is_ws_char(c: char) -> (b: bool)
    ensures
        b == is_ws(c),
{
    c == ' ' || c == '\t' || c == '\r'
}

/// Whether the character is a decimal digit.
fn is_digit_char(c: char) -> (b: bool)
    ensures
        b == is_digit(c),
{
    let u = c as u32;
    48 <= u && u <= 57
}

/// Finds the first non-whitespace position at or after `i`.
fn skip_ws_exec(l: &str, i: usize, n: usize) -> (j: usize)
    requires
        n == l@.len(),
        i <= n,
    ensures
        j == skip_ws(l@, i as int),
        i <= j <= n,
{
    let mut cur = i;
    while cur < n && is_ws_char(l.get_char(cur))
        invariant
            n == l@.len(),
            i <= cur <= n,
            skip_ws(l@, i as int) == skip_ws(l@, cur as int),
        decreases n - cur,
    {
        cur = cur + 1;
    }
    cur
}

/// Finds the first non-digit position at or after `i`.
fn digits_end_exec(l: &str, i: usize, n: usize) -> (j: usize)
    requires
        n == l@.len(),
        i <= n,
    ensures
        j == digits_end(l@, i as int),
        i <= j <= n,
{
    let mut cur = i;
    while cur < n && is_digit_char(l.get_char(cur))
        invariant
            n == l@.len(),
            i <= cur <= n,
            digits_end(l@, i as int) == digits_end(l@, cur as int),
        decreases n - cur,
    {
        cur = cur + 1;
    }
    cur
}

/// Finds the end of the line once trailing whitespace is dropped.
fn trim_hi_exec(l: &str, n: usize) -> (j: usize)
    requires
        n == l@.len(),
    ensures
        j == trim_hi(l@, n as int),
        j <= n,
{
    let mut cur = n;
    while cur > 0 && is_ws_char(l.get_char(cur - 1))
        invariant
            n == l@.len(),
            cur <= n,
            trim_hi(l@, n as int) == trim_hi(l@, cur as int),
        decreases cur,
    {
        cur = cur - 1;
    }
    cur
}

/// A digit run holds digits only and stays within the line.
proof fn lemma_digits_end_digits(l: Seq<char>, i: int)
    requires
        0 <= i <= l.len(),
    ensures
        i <= digits_end(l, i) <= l.len(),
        forall|k: int| i <= k < digits_end(l, i) ==> is_digit(#[trigger] l[k]),
    decreases l.len() - i,
{
    if i < l.len() && is_digit(l[i]) {
        lemma_digits_end_digits(l, i + 1);
    }
}

/// The value of a digit run is never negative.
proof fn lemma_digits_val_nonneg(l: Seq<char>, i: int, j: int)
    requires
        forall|k: int| i <= k < j ==> is_digit(#[trigger] l[k]),
    ensures
        digits_val(l, i, j) >= 0,
    decreases j - i,
{
    if j > i {
        lemma_digits_val_nonneg(l, i, j - 1);
    }
}

/// Reads the value of the digit run `l[i..j)`, reporting when it exceeds
/// one million (the largest accepted whole-unit part).
fn int_digits_exec(l: &str, i: usize, j: usize, n: usize) -> (r: Option<i64>)
    requires
        n == l@.len(),
        i <= j <= n,
        forall|k: int| i <= k < j ==> is_digit(#[trigger] l@[k]),
    ensures
        match r {
            Some(v) => v == digits_val(l@, i as int, j as int) && 0 <= v <= 1_000_000,
            None => digits_val(l@, i as int, j as int) > 1_000_000,
        },
{
    let mut acc: i64 = 0;
    let mut k = i;
    while k < j
        invariant
            n == l@.len(),
            i <= k <= j <= n,
            forall|t: int| i <= t < j ==> is_digit(#[trigger] l@[t]),
            0 <= acc <= 10_000_010,
            digits_val(l@, i as int, k as int) <= 1_000_000 ==> acc == digits_val(
                l@,
                i as int,
                k as int,
            ),
            digits_val(l@, i as int, k as int) > 1_000_000 ==> acc > 1_000_000,
        decreases j - k,
    {
        let d = (l.get_char(k) as u32 - 48) as i64;
        proof {
            lemma_digits_val_nonneg(l@, i as int, k as int);
        }
        if acc > 1_000_000 {
            acc = 1_000_001;
        } else {
            acc = acc * 10 + d;
        }
        k = k + 1;
    }
    if acc <= 1_000_000 {
        Some(acc)
    } else {
        None
    }
}

/// Reads the thousandths encoded by the fraction run `l[fs..fe)`.
fn frac_exec(l: &str, fs: usize, fe: usize, n: usize) -> (r: i64)
    requires
        n == l@.len(),
        fs <= fe <= n,
        forall|k: int| fs <= k < fe ==> is_digit(#[trigger] l@[k]),
    ensures
        r == frac_val(l@, fs as int, fe as int),
        0 <= r <= 999,
{
    if fe == fs {
        0
    } else if fe - fs == 1 {
        (l.get_char(fs) as u32 - 48) as i64 * 100
    } else if fe - fs == 2 {
        (l.get_char(fs) as u32 - 48) as i64 * 100 + (l.get_char(fs + 1) as u32 - 48) as i64 * 10
    } else {
        (l.get_char(fs) as u32 - 48) as i64 * 100 + (l.get_char(fs + 1) as u32 - 48) as i64 * 10 + (
        l.get_char(fs + 2) as u32 - 48) as i64
    }
}

/// Reads one decimal number token, as [`spec_number`] describes.
pub(crate) fn number_exec(l: &str, i: usize, n: usize) -> (r: Option<(i64, usize)>)
    requires
        n == l@.len(),
        i <= n,
    ensures
        match r {
            Some((v, j)) => spec_number(l@, i as int) == Some((v as int, j as int))
                && -1_000_000_000 <= v <= 1_000_000_000 && i <= j <= n,
            None => spec_number(l@, i as int) is None,
        },
{
    let p0 = skip_ws_exec(l, i, n);
    if p0 >= n {
        return None;
    }
    let c0 = l.get_char(p0);
    let neg = c0 == '-';
    let p1 = if c0 == '-' || c0 == '+' {
        p0 + 1
    } else {
        p0
    };
    let ie = digits_end_exec(l, p1, n);
    let has_frac = ie < n && l.get_char(ie) == '.';
    let fs = if has_frac {
        ie + 1
    } else {
        ie
    };
    let fe = if has_frac {
        digits_end_exec(l, fs, n)
    } else {
        ie
    };
    if fe < n && !is_ws_char(l.get_char(fe)) {
        return None;
    }
    if ie == p1 && fe == fs {
        return None;
    }
    proof {
        lemma_digits_end_digits(l@, p1 as int);
        lemma_digits_end_digits(l@, fs as int);
        lemma_digits_val_nonneg(l@, p1 as int, ie as int);
    }
    match int_digits_exec(l, p1, ie, n) {
        None => {
            proof {
                assert(digits_val(l@, p1 as int, ie as int) * 1000 > 1_000_000_000);
                assert(frac_val(l@, fs as int, fe as int) >= 0);
            }
            None
        },
        Some(ip) => {
            let fr = frac_exec(l, fs, fe, n);
            let m = ip * 1000 + fr;
            if m > 1_000_000_000 {
                None
            } else if neg {
                Some((-m, fe))
            } else {
                Some((m, fe))
            }
        },
    }
}

/// Reads `k` consecutive number tokens, as [`nums_chain`] describes.
pub(crate) fn nums_chain_exec(l: &str, i: usize, k: usize, n: usize) -> (r: Option<
    (Vec<i64>, usize),
>)
    requires
        n == l@.len(),
        i <= n,
    ensures
        match r {
            Some((vs, e)) => {
                &&& nums_chain(l@, i as int, k as int) == Some(
                    (vs@.map_values(|x: i64| x as int), e as int),
                )
                &&& vs@.len() == k
                &&& e <= n
                &&& forall|t: int| 0 <= t < vs@.len() ==> -1_000_000_000 <= #[trigger] vs@[t]
                    <= 1_000_000_000
            },
            None => nums_chain(l@, i as int, k as int) is None,
        },
    decreases k,
{
    if k == 0 {
        let vs: Vec<i64> = Vec::new();
        proof {
            assert(vs@.map_values(|x: i64| x as int) =~= Seq::<int>::empty());
        }
        Some((vs, i))
    } else {
        match number_exec(l, i, n) {
            None => None,
            Some((v, j)) => {
                match nums_chain_exec(l, j, k - 1, n) {
                    None => None,
                    Some((vs, e)) => {
                        let mut out = vs;
                        out.insert(0, v);
                        proof {
                            assert(out@.map_values(|x: i64| x as int) =~= seq![v as int]
                                + vs@.map_values(|x: i64| x as int));
                        }
                        Some((out, e))
                    },
                }
            },
        }
    }
}

/// Reads one unsigned integer token, as [`spec_uint_nonzero`] describes.
pub(crate) fn uint_nonzero_exec(l: &str, i: usize, n: usize) -> (r: Option<(bool, usize)>)
    requires
        n == l@.len(),
        i <= n,
    ensures
        match r {
            Some((on, j)) => spec_uint_nonzero(l@, i as int) == Some((on, j as int)) && j <= n,
            None => spec_uint_nonzero(l@, i as int) is None,
        },
{
    let p0 = skip_ws_exec(l, i, n);
    let de = digits_end_exec(l, p0, n);
    if p0 >= n || de == p0 {
        return None;
    }
    if de < n && !is_ws_char(l.get_char(de)) {
        return None;
    }
    proof {
        lemma_digits_end_digits(l@, p0 as int);
    }
    let mut k = p0;
    let mut nonzero = false;
    while k < de
        invariant
            n == l@.len(),
            p0 <= k <= de <= n,
            forall|t: int| p0 <= t < de ==> is_digit(#[trigger] l@[t]),
            nonzero == (digits_val(l@, p0 as int, k as int) != 0),
        decreases de - k,
    {
        proof {
            lemma_digits_val_nonneg(l@, p0 as int, k as int);
        }
        if l.get_char(k) != '0' {
            nonzero = true;
        }
        k = k + 1;
    }
    Some((nonzero, de))
}

/// Takes the remainder of the line as a string, as [`rest_after`] describes.
pub(crate) fn rest_exec(l: &str, i: usize, n: usize) -> (r: Option<String>)
    requires
        n == l@.len(),
        i <= n,
    ensures
        match r {
            Some(s) => rest_after(l@, i as int) == Some(s@),
            None => rest_after(l@, i as int) is None,
        },
{
    let s0 = skip_ws_exec(l, i, n);
    if s0 >= n {
        None
    } else {
        let sub = l.substring_char(s0, n);
        Some(sub.to_owned())
    }
}

/// Tests whether the line starts with the keyword as its own token,
/// returning the position right after it.
pub(crate) fn kw_start(l: &str, kw: &str, n: usize) -> (r: Option<usize>)
    requires
        n == l@.len(),
    ensures
        match r {
            Some(j) => match_kw(l@, kw@) && j == kw@.len() && j <= n,
            None => !match_kw(l@, kw@),
        },
{
    let kl = kw.unicode_len();
    if n < kl {
        return None;
    }
    let mut j: usize = 0;
    while j < kl
        invariant
            n == l@.len(),
            kl == kw@.len(),
            kl <= n,
            j <= kl,
            forall|t: int| 0 <= t < j ==> l@[t] == kw@[t],
        decreases kl - j,
    {
        if l.get_char(j) != kw.get_char(j) {
            proof {
                assert(l@.subrange(0, kl as int)[j as int] == l@[j as int]);
            }
            return None;
        }
        j = j + 1;
    }
    proof {
        assert(l@.subrange(0, kl as int) =~= kw@);
    }
    if n == kl {
        Some(kl)
    } else if is_ws_char(l.get_char(kl)) {
        Some(kl)
    } else {
        None
    }
}

/// Trims leading and trailing whitespace, as [`trim`] describes.
pub(crate) fn trim_exec(l: &str) -> (t: &str)
    ensures
        t@ == trim(l@),
{
    let n = l.unicode_len();
    let lo = skip_ws_exec(l, 0, n);
    let hi = trim_hi_exec(l, n);
    if hi <= lo {
        let t = l.substring_char(0, 0);
        proof {
            assert(t@ =~= trim(l@));
        }
        t
    } else {
        l.substring_char(lo, hi)
    }
}

/// Law (round trip): a command line recognized by the box grammar has
/// exactly the effect of the direct `add_box` call with the same arguments,
/// so composing the parser with the serializer renders the same document as
/// the direct call followed by the serializer.
pub proof fn lemma_parse_box_equivalent(
    v: ToolView,
    l: Seq<char>,
    a: int,
    b: int,
    c: int,
    d: int,
)
    requires
        quad_line(trim(l), "box"@) == Some((a, b, c, d)),
    ensures
        process_line(v, l) == spec_add_box(v, a, b, c, d),
        spec_render(process_line(v, l)) == spec_render(spec_add_box(v, a, b, c, d)),
{
}

} // verus!
