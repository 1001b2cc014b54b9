//! Printer configuration parser.
//!
//! A configuration is a sequence of sections, `[prefix suffix?]`, each with
//! `key: value` lines.  A value is a number (decimal or scientific), a
//! ratio chain `a:b, c:d, ...` whose links multiply left to right, an
//! indented G-code block under an empty value, or a free-form string.  A
//! `#` opens a full comment line, `;` a trailing comment.  A value that
//! starts with a digit first tries the number and ratio forms and falls
//! back to a string when they do not reach the end of the line.

use vstd::prelude::*;

use crate::fixed::spec_gcd;
use crate::numbers::{
    pow10, scan_number, spec_is_digit, spec_render_digits, spec_scan_number, is_digit,
    spec_digit_char,
};
use crate::text::{chars_to_string, find_char, skip_spaces, spec_trim, str_chars, subvec, trim};

verus! {

/// A configuration value.
#[derive(Debug, Clone)]
pub enum Value {
    /// A number in micro-units.
    Number(i64),
    /// Several numbers, in micro-units.
    NumberArray(Vec<i64>),
    /// An evaluated ratio chain, in micro-units: `80:8` is `10_000_000`.
    Ratio(i64),
    String(String),
    StringArray(Vec<String>),
    /// An indented G-code block: the non-comment lines, each with a
    /// trailing newline.
    Gcode(String),
}

/// One `[prefix suffix?]` section and its key–value pairs, in file order.
#[derive(Debug, Clone)]
pub struct Section {
    pub prefix_name: String,
    pub suffix_name: Option<String>,
    pub values: Vec<(String, Value)>,
}

/// A parsed configuration: its sections in file order.
#[derive(Debug, Clone)]
pub struct Config {
    pub sections: Vec<Section>,
}

/// Where and why a configuration failed to parse.
#[derive(Debug, Clone)]
pub struct ConfigParseError {
    /// Byte offset (in characters) into the input.
    pub position: usize,
    pub message: String,
}

/// An ASCII identifier start: a letter or an underscore.
pub open spec fn spec_is_ident_start(c: char) -> bool {
    ('a' <= c && c <= 'z') || ('A' <= c && c <= 'Z') || c == '_'
}

/// An ASCII identifier continuation: a letter, a digit or an underscore.
pub open spec fn spec_is_ident_continue(c: char) -> bool {
    spec_is_ident_start(c) || spec_is_digit(c)
}

fn is_ident_start(c: char) -> (r: bool)
    ensures
        r == spec_is_ident_start(c),
{
    ('a' <= c && c <= 'z') || ('A' <= c && c <= 'Z') || c == '_'
}

fn is_ident_continue(c: char) -> (r: bool)
    ensures
        r == spec_is_ident_continue(c),
{
    is_ident_start(c) || is_digit(c)
}

/// Truncating division of a signed numerator by a positive denominator.
pub open spec fn tdiv(n: int, d: int) -> int {
    if n >= 0 {
        n / d
    } else {
        -((-n) / d)
    }
}

/// The running product of a ratio chain, as a reduced fraction with a
/// positive denominator.  A zero denominator link, or a reduced numerator
/// or denominator beyond a billion billions, rejects the chain.
pub open spec fn spec_ratio_state(pairs: Seq<(i64, i64)>) -> Option<(int, int)>
    decreases pairs.len(),
{
    if pairs.len() == 0 {
        Some((1int, 1int))
    } else {
        match spec_ratio_state(pairs.drop_last()) {
            None => None,
            Some((n, d)) => {
                let a = pairs.last().0 as int;
                let b = pairs.last().1 as int;
                if b == 0 {
                    None
                } else {
                    let n2 = n * a;
                    let d2 = d * b;
                    let n3 = if d2 < 0 {
                        -n2
                    } else {
                        n2
                    };
                    let d3 = if d2 < 0 {
                        -d2
                    } else {
                        d2
                    };
                    let na = if n3 >= 0 {
                        n3
                    } else {
                        -n3
                    };
                    let g = spec_gcd(na as nat, d3 as nat) as int;
                    let nr = n3 / g;
                    let dr = d3 / g;
                    if -1_000_000_000_000_000_000 <= nr <= 1_000_000_000_000_000_000 && dr
                        <= 1_000_000_000_000_000_000 {
                        Some((nr, dr))
                    } else {
                        None
                    }
                }
            },
        }
    }
}

/// The value of a ratio chain in micro-units: the reduced product, scaled
/// and truncated towards zero, when it fits a signed 64-bit count.
pub open spec fn spec_eval_ratio(pairs: Seq<(i64, i64)>) -> Option<i64> {
    match spec_ratio_state(pairs) {
        None => None,
        Some((n, d)) => {
            let v = tdiv(n * 1_000_000, d);
            if i64::MIN <= v <= i64::MAX {
                Some(v as i64)
            } else {
                None
            }
        },
    }
}

/// Multiply the links of a ratio chain into micro-units, exactly as
/// [`spec_eval_ratio`] says.
pub fn eval_ratio(pairs: &Vec<(i64, i64)>) -> (r: Option<i64>)
    ensures
        r == spec_eval_ratio(pairs@),
{
    let mut n: i128 = 1;
    let mut d: i128 = 1;
    let ghost pv = pairs@;
    let len = pairs.len();
    let mut i: usize = 0;
    proof {
        assert(pv.take(0) =~= Seq::<(i64, i64)>::empty());
    }
    while i < len
        invariant
            i <= len == pairs@.len(),
            pv == pairs@,
            spec_ratio_state(pv.take(i as int)) == Some((n as int, d as int)),
            -1_000_000_000_000_000_000 <= n <= 1_000_000_000_000_000_000,
            0 < d <= 1_000_000_000_000_000_000,
        decreases len - i,
    {
        proof {
            assert(pv.take(i + 1).drop_last() =~= pv.take(i as int));
            assert(pv.take(i + 1).last() == pv[i as int]);
        }
        let (a, b) = pairs[i];
        if b == 0 {
            proof {
                lemma_ratio_state_none_prefix(pv, i + 1);
            }
            return None;
        }
        proof {
            assert(i64::MIN as int == -9_223_372_036_854_775_808 && i64::MAX as int
                == 9_223_372_036_854_775_807);
            assert(-170141183460469231731687303715884105727 <= n as int * a as int
                <= 170141183460469231731687303715884105727) by (nonlinear_arith)
                requires
                    -1_000_000_000_000_000_000 <= n as int <= 1_000_000_000_000_000_000,
                    -9_223_372_036_854_775_808 <= a as int <= 9_223_372_036_854_775_807,
            ;
            assert(-170141183460469231731687303715884105727 <= d as int * b as int
                <= 170141183460469231731687303715884105727 && d as int * b as int != 0)
                by (nonlinear_arith)
                requires
                    0 < d as int <= 1_000_000_000_000_000_000,
                    -9_223_372_036_854_775_808 <= b as int <= 9_223_372_036_854_775_807,
                    b as int != 0,
            ;
        }
        let n2: i128 = n * a as i128;
        let d2: i128 = d * b as i128;
        let n3: i128 = if d2 < 0 {
            -n2
        } else {
            n2
        };
        let d3: i128 = if d2 < 0 {
            -d2
        } else {
            d2
        };
        let na: i128 = if n3 >= 0 {
            n3
        } else {
            -n3
        };
        let g: u128 = gcd_u128(na as u128, d3 as u128);
        proof {
            crate::fixed::lemma_gcd_divides(na as nat, d3 as nat);
        }
        let nq: u128 = na as u128 / g;
        let dq: u128 = d3 as u128 / g;
        proof {
            assert(g >= 1);
            assert((na as int) % (g as int) == 0);
            assert((d3 as int) % (g as int) == 0);
            vstd::arithmetic::div_mod::lemma_fundamental_div_mod(na as int, g as int);
            vstd::arithmetic::div_mod::lemma_fundamental_div_mod(d3 as int, g as int);
            // Quotients shrink.
            vstd::arithmetic::div_mod::lemma_div_is_ordered_by_denominator(
                na as int,
                1,
                g as int,
            );
            vstd::arithmetic::div_mod::lemma_div_is_ordered_by_denominator(
                d3 as int,
                1,
                g as int,
            );
            assert(na as int / 1 == na as int) by (nonlinear_arith);
            assert(d3 as int / 1 == d3 as int) by (nonlinear_arith);
            // The denominator quotient stays positive.
            if d3 as int / g as int <= 0 {
                assert(g as int * (d3 as int / g as int) <= 0) by (nonlinear_arith)
                    requires
                        g as int > 0,
                        d3 as int / g as int <= 0,
                ;
            }
            // Euclidean division of the signed numerator by an exact
            // divisor equals the sign-applied magnitude quotient.
            if n3 < 0 {
                assert(n3 as int == (-(nq as int)) * g as int + 0) by (nonlinear_arith)
                    requires
                        na as int == g as int * (nq as int) + 0,
                        n3 as int == -(na as int),
                ;
                vstd::arithmetic::div_mod::lemma_fundamental_div_mod_converse(
                    n3 as int,
                    g as int,
                    -(nq as int),
                    0,
                );
            }
        }
        let nr: i128 = if n3 >= 0 {
            nq as i128
        } else {
            -(nq as i128)
        };
        let dr: i128 = dq as i128;
        if nr < -1_000_000_000_000_000_000 || nr > 1_000_000_000_000_000_000 || dr
            > 1_000_000_000_000_000_000 {
            proof {
                lemma_ratio_state_none_prefix(pv, i + 1);
            }
            return None;
        }
        n = nr;
        d = dr;
        i = i + 1;
    }
    proof {
        assert(pv.take(len as int) =~= pv);
    }
    let scaled: i128 = n * 1_000_000;
    let v: i128 = if scaled >= 0 {
        scaled / d
    } else {
        -((-scaled) / d)
    };
    if v < i64::MIN as i128 || v > i64::MAX as i128 {
        return None;
    }
    Some(v as i64)
}

/// Greatest common divisor over 128 bits, for intermediate products.
fn gcd_u128(a: u128, b: u128) -> (g: u128)
    ensures
        g == spec_gcd(a as nat, b as nat),
{
    let mut x: u128 = a;
    let mut y: u128 = b;
    while y != 0
        invariant
            spec_gcd(x as nat, y as nat) == spec_gcd(a as nat, b as nat),
        decreases y,
    {
        let r: u128 = x % y;
        x = y;
        y = r;
    }
    x
}

/// A rejected prefix rejects the whole chain.
proof fn lemma_ratio_state_none_prefix(pairs: Seq<(i64, i64)>, k: int)
    requires
        0 <= k <= pairs.len(),
        spec_ratio_state(pairs.take(k)) is None,
    ensures
        spec_ratio_state(pairs) is None,
        spec_eval_ratio(pairs) is None,
    decreases pairs.len() - k,
{
    if k < pairs.len() {
        assert(pairs.take(k + 1).drop_last() =~= pairs.take(k));
        lemma_ratio_state_none_prefix(pairs, k + 1);
    } else {
        assert(pairs.take(k) =~= pairs);
    }
}

/// End of the identifier starting at `i`.
pub open spec fn ident_end(s: Seq<char>, i: int) -> int
    decreases s.len() - i when i <= s.len()
{
    if 0 <= i < s.len() && spec_is_ident_continue(s[i]) {
        ident_end(s, i + 1)
    } else {
        i
    }
}

/// Scan an identifier: present exactly when an identifier-start character
/// stands at `pos`; it extends to the end of the letter, digit and
/// underscore run.
fn parse_ident(s: &Vec<char>, pos: usize) -> (r: Option<(Vec<char>, usize)>)
    requires
        pos <= s@.len(),
    ensures
        match r {
            Some((id, p2)) => {
                &&& pos < s@.len() && spec_is_ident_start(s@[pos as int])
                &&& p2 as int == ident_end(s@, pos as int)
                &&& pos < p2 <= s@.len()
                &&& id@ == s@.subrange(pos as int, p2 as int)
            },
            None => !(pos < s@.len() && spec_is_ident_start(s@[pos as int])),
        },
{
    if !(pos < s.len() && is_ident_start(s[pos])) {
        return None;
    }
    let mut i: usize = pos;
    while i < s.len() && is_ident_continue(s[i])
        invariant
            pos <= i <= s@.len(),
            ident_end(s@, pos as int) == ident_end(s@, i as int),
        decreases s@.len() - i,
    {
        i = i + 1;
    }
    let id = subvec(s, pos, i);
    proof {
        assert(ident_end(s@, i as int) == i as int);
        assert(spec_is_ident_continue(s@[pos as int]));
    }
    Some((id, i))
}

/// Skip spaces and tabs.
fn skip_ws(s: &Vec<char>, pos: usize) -> (p: usize)
    requires
        pos <= s@.len(),
    ensures
        p as int == crate::text::skip_spaces(s@, pos as int),
        pos <= p <= s@.len(),
{
    crate::text::skip_spaces_exec(s, pos)
}

/// Position after the current line: one past its newline, or the end of
/// input.
pub open spec fn spec_line_end(s: Seq<char>, pos: int) -> int {
    let i = find_char(s, pos, '\n');
    if 0 <= i < s.len() {
        i + 1
    } else {
        i
    }
}

/// Position after the current line's newline, or the end of input.
fn skip_to_line_end(s: &Vec<char>, pos: usize) -> (p: usize)
    requires
        pos <= s@.len(),
    ensures
        p as int == spec_line_end(s@, pos as int),
        pos <= p <= s@.len(),
        pos < s@.len() ==> p > pos,
{
    let i = crate::text::find_char_exec(s, pos, '\n');
    if i < s.len() {
        i + 1
    } else {
        i
    }
}

/// Skip full-line `#` comments and blank lines.
/// Position after any run of full-line `#` comments and blank lines.
pub open spec fn spec_skip_comment_lines(s: Seq<char>, pos: int) -> int
    decreases s.len() - pos when 0 <= pos <= s.len()
{
    if pos >= s.len() {
        pos
    } else if s[pos] == '#' {
        let e = spec_line_end(s, pos);
        if e <= pos || e > s.len() {
            pos
        } else {
            spec_skip_comment_lines(s, e)
        }
    } else {
        let ws = skip_spaces(s, pos);
        if 0 <= ws < s.len() && s[ws] == '\n' {
            let next = ws + 1;
            if next <= pos || next > s.len() {
                pos
            } else {
                spec_skip_comment_lines(s, next)
            }
        } else {
            pos
        }
    }
}

fn skip_comment_lines(s: &Vec<char>, pos: usize) -> (p: usize)
    requires
        pos <= s@.len(),
    ensures
        p as int == spec_skip_comment_lines(s@, pos as int),
        pos <= p <= s@.len(),
{
    let mut i: usize = pos;
    loop
        invariant_except_break
            pos <= i <= s@.len(),
            spec_skip_comment_lines(s@, pos as int) == spec_skip_comment_lines(s@, i as int),
        ensures
            pos <= i <= s@.len(),
            spec_skip_comment_lines(s@, pos as int) == i as int,
        decreases s@.len() - i,
    {
        if i >= s.len() {
            break ;
        }
        if s[i] == '#' {
            i = skip_to_line_end(s, i);
            continue ;
        }
        let ws = skip_ws(s, i);
        if ws < s.len() && s[ws] == '\n' {
            let next = ws + 1;
            if next <= i {
                break ;
            }
            i = next;
            continue ;
        }
        break ;
    }
    i
}

/// The links of a ratio chain `a:b (, a:b)*` read from `pos`: each link
/// is two numbers around a `:`, links separated by a comma with optional
/// white space.  Nothing when any link fails to scan.
pub open spec fn spec_ratio_links(s: Seq<char>, pos: int) -> Option<(Seq<(i64, i64)>, int)>
    decreases s.len() - pos when 0 <= pos <= s.len()
{
    match spec_scan_number(s, pos) {
        None => None,
        Some((a, p1)) => {
            if !(0 <= p1 < s.len() && s[p1] == ':') {
                None
            } else {
                match spec_scan_number(s, p1 + 1) {
                    None => None,
                    Some((b, p2)) => {
                        if !(pos < p2 <= s.len()) {
                            None
                        } else {
                            let ws = skip_spaces(s, p2);
                            if 0 <= ws < s.len() && s[ws] == ',' {
                                let after = skip_spaces(s, ws + 1);
                                if after <= p2 || after > s.len() {
                                    None
                                } else {
                                    match spec_ratio_links(s, after) {
                                        None => None,
                                        Some((rest, end)) => Some(
                                            (seq![(a as i64, b as i64)] + rest, end),
                                        ),
                                    }
                                }
                            } else {
                                Some((seq![(a as i64, b as i64)], p2))
                            }
                        }
                    },
                }
            }
        },
    }
}

/// The value of a ratio chain read from `pos`: its links evaluated, when
/// they scan and the product is admitted.
pub open spec fn spec_ratio_value(s: Seq<char>, pos: int) -> Option<(i64, int)> {
    match spec_ratio_links(s, pos) {
        None => None,
        Some((links, end)) => match spec_eval_ratio(links) {
            None => None,
            Some(v) => Some((v, end)),
        },
    }
}

/// Scan a ratio chain `a:b (, a:b)*` starting at `pos`, exactly as
/// [`spec_ratio_value`] says.
fn parse_ratio_chain(s: &Vec<char>, pos: usize) -> (r: Option<(i64, usize)>)
    requires
        pos <= s@.len(),
    ensures
        match r {
            Some((v, p2)) => pos <= p2 <= s@.len() && spec_ratio_value(s@, pos as int) == Some(
                (v, p2 as int),
            ),
            None => spec_ratio_value(s@, pos as int) is None,
        },
{
    let mut pairs: Vec<(i64, i64)> = Vec::new();
    let mut i: usize = pos;
    loop
        invariant_except_break
            pos <= i <= s@.len(),
            spec_ratio_links(s@, pos as int) == (match spec_ratio_links(s@, i as int) {
                Some((rest, end)) => Some((pairs@ + rest, end)),
                None => None::<(Seq<(i64, i64)>, int)>,
            }),
        ensures
            pos <= i <= s@.len() && false,
        decreases s@.len() - i,
    {
        let ghost i0: int = i as int;
        let ghost pairs0 = pairs@;
        let a = match scan_number(s, i) {
            Some((a, p)) => {
                i = p;
                a
            },
            None => {
                return None;
            },
        };
        if !(i < s.len() && s[i] == ':') {
            return None;
        }
        i = i + 1;
        let b = match scan_number(s, i) {
            Some((b, p)) => {
                i = p;
                b
            },
            None => {
                return None;
            },
        };
        pairs.push((a, b));
        proof {
            assert(i0 < i as int <= s@.len());
            assert(pairs@ =~= pairs0 + seq![(a, b)]);
        }
        let ws = skip_ws(s, i);
        if ws < s.len() && s[ws] == ',' {
            let after = skip_ws(s, ws + 1);
            if after <= i {
                return None;
            }
            proof {
                assert(forall|rest: Seq<(i64, i64)>, end: int|
                    spec_ratio_links(s@, after as int) == Some((rest, end)) ==> (pairs0 + (
                    seq![(a, b)] + rest)) =~= (pairs@ + rest));
            }
            i = after;
        } else {
            proof {
                assert(spec_ratio_links(s@, i0) == Some((seq![(a, b)], i as int)));
                assert(spec_ratio_links(s@, pos as int) == Some((pairs@, i as int)));
            }
            return match eval_ratio(&pairs) {
                Some(v) => Some((v, i)),
                None => None,
            };
        }
    }
}

/// The end a number or ratio value must reach: optional trailing white
/// space, then a newline, a `;` comment running to the newline, or the
/// end of input; anything else rejects the numeric reading.
pub open spec fn spec_line_end_after(s: Seq<char>, pos: int) -> Option<int> {
    let ws = crate::text::skip_spaces(s, pos);
    if ws >= s.len() {
        Some(ws)
    } else if s[ws] == '\n' {
        Some(ws + 1)
    } else if s[ws] == ';' {
        Some(spec_line_end(s, ws))
    } else {
        None
    }
}

/// The value forms a number-or-ratio line may end with: optional trailing
/// white space, an optional `;` comment, then a newline or the end of
/// input.
fn line_end_after(s: &Vec<char>, pos: usize) -> (r: Option<usize>)
    requires
        pos <= s@.len(),
    ensures
        match r {
            Some(p) => pos <= p <= s@.len() && spec_line_end_after(s@, pos as int) == Some(
                p as int,
            ),
            None => spec_line_end_after(s@, pos as int) is None,
        },
{
    let ws = skip_ws(s, pos);
    if ws >= s.len() {
        return Some(ws);
    }
    if s[ws] == '\n' {
        return Some(ws + 1);
    }
    if s[ws] == ';' {
        let e = skip_to_line_end(s, ws);
        return Some(e);
    }
    None
}

/// The indented block after an empty value, read from `pos`: the block
/// body (non-comment lines, trimmed, each with a trailing newline),
/// whether any line contributed, and the position after the block.  A
/// full-line `#` comment is skipped; the block ends at the first
/// unindented line or the end of input.
pub open spec fn spec_block(s: Seq<char>, pos: int) -> (Seq<char>, bool, int)
    decreases s.len() - pos when 0 <= pos <= s.len()
{
    if pos >= s.len() {
        (Seq::<char>::empty(), false, pos)
    } else if s[pos] == '#' {
        let e = spec_line_end(s, pos);
        if e <= pos || e > s.len() {
            (Seq::<char>::empty(), false, pos)
        } else {
            spec_block(s, e)
        }
    } else if !(s[pos] == ' ' || s[pos] == '\t') {
        (Seq::<char>::empty(), false, pos)
    } else {
        let le = spec_line_end(s, pos);
        let ce = if le > pos && 0 <= le - 1 < s.len() && s[le - 1] == '\n' {
            le - 1
        } else {
            le
        };
        let t = spec_trim(s.subrange(pos, ce));
        let contributed = t.len() > 0 && t[0] != '#';
        let piece = if contributed {
            t + seq!['\n']
        } else {
            Seq::<char>::empty()
        };
        if le <= pos || le > s.len() {
            (piece, contributed, pos)
        } else {
            let (rb, ra, re) = spec_block(s, le);
            (piece + rb, contributed || ra, re)
        }
    }
}

/// Whether the value text opens like a number: a digit, or a sign right
/// before one.
pub open spec fn spec_numberish(s: Seq<char>, pos: int) -> bool {
    0 <= pos < s.len() && (spec_is_digit(s[pos]) || ((s[pos] == '-' || s[pos] == '+') && pos
        + 1 < s.len() && spec_is_digit(s[pos + 1])))
}

/// The free-form string a value falls back to: the rest of the line, a
/// `;` comment tail cut, white space trimmed from both ends.
pub open spec fn spec_fallback_text(s: Seq<char>, pos: int) -> Seq<char> {
    let le = spec_line_end(s, pos);
    let ce = if le > pos && 0 <= le - 1 < s.len() && s[le - 1] == '\n' {
        le - 1
    } else {
        le
    };
    let raw = s.subrange(pos, ce);
    spec_trim(raw.subrange(0, find_char(raw, 0, ';')))
}

/// The fallback reading of a value: its free-form string, ending after
/// the line.
pub open spec fn fallback_value_result(s: Seq<char>, pos: int, v: Value, end: int) -> bool {
    &&& v matches Value::String(t) && t@ == spec_fallback_text(s, pos)
    &&& end == spec_line_end(s, pos)
}

/// The number reading of a value, falling back to a string when the
/// number does not scan or the line does not end after it.
pub open spec fn number_value_result(s: Seq<char>, pos: int, v: Value, end: int) -> bool {
    match spec_scan_number(s, pos) {
        Some((nv, p)) => match spec_line_end_after(s, p) {
            Some(e) => (v matches Value::Number(x) && x as int == nv) && end == e,
            None => fallback_value_result(s, pos, v, end),
        },
        None => fallback_value_result(s, pos, v, end),
    }
}

/// What parsing a value at `pos` yields — the grammar of a value.  An
/// empty value opens an indented block: a G-code value when any line
/// contributed, an empty-or-blank string otherwise.  A number-like
/// opening tries a ratio chain, then a plain number, each accepted only
/// when the line ends after it; everything else, including every failed
/// numeric reading, is the free-form string.
pub open spec fn parse_value_result(s: Seq<char>, pos: int, v: Value, end: int) -> bool {
    if pos >= s.len() || s[pos] == '\n' {
        let start = if pos < s.len() {
            pos + 1
        } else {
            pos
        };
        let (body, any, e) = spec_block(s, start);
        &&& end == e
        &&& if any {
            v matches Value::Gcode(g) && g@ == body
        } else {
            v matches Value::String(t) && t@ == body
        }
    } else if spec_numberish(s, pos) {
        match spec_ratio_value(s, pos) {
            Some((rv, p)) => match spec_line_end_after(s, p) {
                Some(e) => (v matches Value::Ratio(x) && x == rv) && end == e,
                None => number_value_result(s, pos, v, end),
            },
            None => number_value_result(s, pos, v, end),
        }
    } else {
        fallback_value_result(s, pos, v, end)
    }
}

/// The fallback reading, functionally: the free-form string and the line
/// end.
pub open spec fn spec_fallback_at(s: Seq<char>, pos: int) -> (ValueShape, int) {
    (ValueShape::Text(spec_fallback_text(s, pos)), spec_line_end(s, pos))
}

/// The number reading, functionally, falling back to a string.
pub open spec fn spec_number_or_fallback(s: Seq<char>, pos: int) -> (ValueShape, int) {
    match spec_scan_number(s, pos) {
        Some((nv, p)) => match spec_line_end_after(s, p) {
            Some(e) => (ValueShape::Num(nv as i64), e),
            None => spec_fallback_at(s, pos),
        },
        None => spec_fallback_at(s, pos),
    }
}

/// What parsing a value at `pos` yields, functionally: the same grammar
/// as [`parse_value_result`], as a function.
#[verifier::opaque]
pub open spec fn spec_value_at(s: Seq<char>, pos: int) -> (ValueShape, int) {
    if pos >= s.len() || s[pos] == '\n' {
        let start = if 0 <= pos < s.len() {
            pos + 1
        } else {
            pos
        };
        let (body, any, e) = spec_block(s, start);
        (if any {
            ValueShape::Block(body)
        } else {
            ValueShape::Text(body)
        }, e)
    } else if spec_numberish(s, pos) {
        match spec_ratio_value(s, pos) {
            Some((rv, p)) => match spec_line_end_after(s, p) {
                Some(e) => (ValueShape::Rat(rv), e),
                None => spec_number_or_fallback(s, pos),
            },
            None => spec_number_or_fallback(s, pos),
        }
    } else {
        spec_fallback_at(s, pos)
    }
}

/// One line of an indented G-code block folded into the block body: a
/// blank line or a `#` comment contributes nothing; any other line
/// contributes its trimmed text followed by a newline.  This is the rule
/// that makes a block the concatenation of its non-comment lines, each
/// with a terminating newline.
fn append_block_line(body: &mut Vec<char>, raw: &Vec<char>) -> (appended: bool)
    ensures
        ({
            let t = spec_trim(raw@);
            if t.len() > 0 && t[0] != '#' {
                appended && final(body)@ == old(body)@ + t + seq!['\n']
            } else {
                !appended && final(body)@ == old(body)@
            }
        }),
{
    let t = trim(raw);
    if t.len() > 0 && t[0] != '#' {
        let m = t.len();
        let mut k: usize = 0;
        while k < m
            invariant
                k <= m == t@.len(),
                t@ == spec_trim(raw@),
                body@ == old(body)@ + t@.subrange(0, k as int),
            decreases m - k,
        {
            body.push(t[k]);
            proof {
                assert(body@ =~= old(body)@ + t@.subrange(0, k + 1));
            }
            k = k + 1;
        }
        body.push('\n');
        proof {
            assert(t@.subrange(0, m as int) =~= t@);
            assert(body@ =~= old(body)@ + t@ + seq!['\n']);
        }
        true
    } else {
        false
    }
}

/// Parse one value, never failing: the fallback form is a free string up
/// to the end of the line, trailing white space and `;` comment stripped.
fn parse_value(s: &Vec<char>, pos: usize) -> (r: (Value, usize))
    requires
        pos <= s@.len(),
    ensures
        pos <= r.1 <= s@.len(),
        parse_value_result(s@, pos as int, r.0, r.1 as int),
        (value_shape(r.0), r.1 as int) == spec_value_at(s@, pos as int),
{
    proof {
        reveal(spec_value_at);
    }
    // An empty value introduces a G-code block (or stays empty).
    if pos >= s.len() || s[pos] == '\n' {
        let mut i: usize = if pos < s.len() {
            pos + 1
        } else {
            pos
        };
        let ghost start: int = i as int;
        let mut body: Vec<char> = Vec::new();
        let mut any: bool = false;
        loop
            invariant_except_break
                pos <= i <= s@.len(),
                start <= i as int,
                spec_block(s@, start) == (
                    body@ + spec_block(s@, i as int).0,
                    any || spec_block(s@, i as int).1,
                    spec_block(s@, i as int).2,
                ),
            ensures
                pos <= i <= s@.len(),
                spec_block(s@, start) == (body@, any, i as int),
            decreases s@.len() - i,
        {
            let ghost body0 = body@;
            let ghost any0 = any;
            let ghost i0: int = i as int;
            if i >= s.len() {
                proof {
                    assert(spec_block(s@, i0) == (Seq::<char>::empty(), false, i0));
                    assert(body0 + Seq::<char>::empty() =~= body0);
                }
                break ;
            }
            if s[i] == '#' {
                i = skip_to_line_end(s, i);
                continue ;
            }
            if !(s[i] == ' ' || s[i] == '\t') {
                proof {
                    assert(spec_block(s@, i0) == (Seq::<char>::empty(), false, i0));
                    assert(body0 + Seq::<char>::empty() =~= body0);
                }
                break ;
            }
            // An indented line: blank ones are skipped, others join the
            // block.
            let line_end = skip_to_line_end(s, i);
            let content_end = if line_end > i && s[line_end - 1] == '\n' {
                line_end - 1
            } else {
                line_end
            };
            let raw = subvec(s, i, content_end);
            let appended = append_block_line(&mut body, &raw);
            if appended {
                any = true;
            }
            proof {
                let t = spec_trim(s@.subrange(i0, content_end as int));
                let piece = if t.len() > 0 && t[0] != '#' {
                    t + seq!['\n']
                } else {
                    Seq::<char>::empty()
                };
                assert(body@ =~= body0 + piece);
                let (rb, ra, re) = spec_block(s@, line_end as int);
                assert(spec_block(s@, i0) == (piece + rb, (t.len() > 0 && t[0] != '#') || ra, re));
                assert(body0 + (piece + rb) =~= body@ + rb);
            }
            if line_end <= i {
                break ;
            }
            i = line_end;
        }
        if any {
            return (Value::Gcode(chars_to_string(&body)), i);
        }
        return (Value::String(chars_to_string(&body)), i);
    }
    // A leading digit — or a sign right before one — first tries the
    // number and ratio forms.
    let numberish = is_digit(s[pos]) || ((s[pos] == '-' || s[pos] == '+') && pos + 1 < s.len()
        && is_digit(s[pos + 1]));
    if numberish {
        match parse_ratio_chain(s, pos) {
            Some((v, p)) => {
                match line_end_after(s, p) {
                    Some(e) => {
                        // A single link without `:` never reaches here, so
                        // a colon was seen: this is a ratio.
                        return (Value::Ratio(v), e);
                    },
                    None => {},
                }
            },
            None => {},
        }
        match scan_number(s, pos) {
            Some((v, p)) => {
                match line_end_after(s, p) {
                    Some(e) => {
                        return (Value::Number(v), e);
                    },
                    None => {},
                }
            },
            None => {},
        }
    }
    // Fallback: a free-form string up to the end of the line.
    let line_end = skip_to_line_end(s, pos);
    let content_end = if line_end > pos && s[line_end - 1] == '\n' {
        line_end - 1
    } else {
        line_end
    };
    let raw = subvec(s, pos, content_end);
    let semi = crate::text::find_char_exec(&raw, 0, ';');
    let before = subvec(&raw, 0, semi);
    let t = trim(&before);
    (Value::String(chars_to_string(&t)), line_end)
}

/// The mathematical shape of a value: its text parts as sequences.
pub enum ValueShape {
    Num(i64),
    Rat(i64),
    Text(Seq<char>),
    Block(Seq<char>),
    Nums(Seq<i64>),
    Texts(Seq<Seq<char>>),
}

/// The shape of a value.
pub open spec fn value_shape(v: Value) -> ValueShape {
    match v {
        Value::Number(n) => ValueShape::Num(n),
        Value::Ratio(r) => ValueShape::Rat(r),
        Value::String(t) => ValueShape::Text(t@),
        Value::Gcode(g) => ValueShape::Block(g@),
        Value::NumberArray(a) => ValueShape::Nums(a@),
        Value::StringArray(a) => ValueShape::Texts(a@.map_values(|x: String| x@)),
    }
}

/// The shapes of a section's pairs.
pub open spec fn pairs_shape(values: Seq<(String, Value)>) -> Seq<(Seq<char>, ValueShape)> {
    values.map_values(|p: (String, Value)| (p.0@, value_shape(p.1)))
}

/// Index of the first pair carrying `key`, or the length.
pub open spec fn find_key(pairs: Seq<(Seq<char>, ValueShape)>, key: Seq<char>) -> int
    decreases pairs.len(),
{
    if pairs.len() == 0 {
        0
    } else if pairs[0].0 == key {
        0
    } else {
        1 + find_key(pairs.drop_first(), key)
    }
}

/// `pairs` with `key` bound to `v`: the first pair carrying the key is
/// replaced, or a new pair is appended.
pub open spec fn shape_upsert(
    pairs: Seq<(Seq<char>, ValueShape)>,
    key: Seq<char>,
    v: ValueShape,
) -> Seq<(Seq<char>, ValueShape)> {
    let i = find_key(pairs, key);
    if i < pairs.len() {
        pairs.update(i, (key, v))
    } else {
        pairs.push((key, v))
    }
}

/// A match with no earlier match is the found index.
proof fn lemma_find_key_at(pairs: Seq<(Seq<char>, ValueShape)>, key: Seq<char>, i: int)
    requires
        0 <= i < pairs.len(),
        pairs[i].0 == key,
        forall|k: int| 0 <= k < i ==> (#[trigger] pairs[k]).0 != key,
    ensures
        find_key(pairs, key) == i,
    decreases i,
{
    if i > 0 {
        assert(pairs[0].0 != key);
        assert(pairs.drop_first()[i - 1] == pairs[i]);
        assert(forall|k: int|
            0 <= k < i - 1 ==> (#[trigger] pairs.drop_first()[k]) == pairs[k + 1]);
        lemma_find_key_at(pairs.drop_first(), key, i - 1);
    }
}

/// With no match anywhere, the found index is the length.
proof fn lemma_find_key_none(pairs: Seq<(Seq<char>, ValueShape)>, key: Seq<char>)
    requires
        forall|k: int| 0 <= k < pairs.len() ==> (#[trigger] pairs[k]).0 != key,
    ensures
        find_key(pairs, key) == pairs.len(),
    decreases pairs.len(),
{
    if pairs.len() > 0 {
        assert(forall|k: int|
            0 <= k < pairs.drop_first().len() ==> (#[trigger] pairs.drop_first()[k]) == pairs[
                k + 1
            ]);
        lemma_find_key_none(pairs.drop_first(), key);
    }
}

/// `new_pairs` is `old_pairs` with `key` bound to `value`: the first
/// pair carrying the key is replaced (a repeated key keeps its last
/// value), or a new pair is appended.
pub open spec fn pairs_upserted<V>(
    old_pairs: Seq<(String, V)>,
    key: Seq<char>,
    value: V,
    new_pairs: Seq<(String, V)>,
) -> bool {
    if exists|j: int| 0 <= j < old_pairs.len() && (#[trigger] old_pairs[j]).0@ == key {
        exists|j: int|
            {
                &&& 0 <= j < old_pairs.len()
                &&& (#[trigger] old_pairs[j]).0@ == key
                &&& forall|k: int| 0 <= k < j ==> (#[trigger] old_pairs[k]).0@ != key
                &&& new_pairs.len() == old_pairs.len()
                &&& new_pairs[j].0@ == key
                &&& new_pairs[j].1 == value
                &&& forall|k: int|
                    0 <= k < old_pairs.len() && k != j ==> new_pairs[k] == old_pairs[k]
            }
    } else {
        &&& new_pairs.len() == old_pairs.len() + 1
        &&& new_pairs.last().0@ == key
        &&& new_pairs.last().1 == value
        &&& forall|k: int| 0 <= k < old_pairs.len() ==> new_pairs[k] == old_pairs[k]
    }
}

/// Bind `key` to `value` in a section's pairs, the last occurrence of a
/// key winning.
fn set_key_value(values: &mut Vec<(String, Value)>, key: &Vec<char>, value: Value)
    ensures
        pairs_upserted(old(values)@, key@, value, final(values)@),
        pairs_shape(final(values)@) == shape_upsert(
            pairs_shape(old(values)@),
            key@,
            value_shape(value),
        ),
{
    let key_string = chars_to_string(key);
    let ghost shapes0 = pairs_shape(values@);
    let n = values.len();
    let mut i: usize = 0;
    while i < n
        invariant
            i <= n == values@.len(),
            values == old(values),
            shapes0 == pairs_shape(values@),
            key_string@ == key@,
            forall|k: int| 0 <= k < i ==> (#[trigger] values@[k]).0@ != key@,
        decreases n - i,
    {
        if crate::text::str_eq(values[i].0.as_str(), key_string.as_str()) {
            proof {
                assert(forall|k: int|
                    0 <= k < shapes0.len() ==> (#[trigger] shapes0[k]).0 == values@[k].0@);
                lemma_find_key_at(shapes0, key@, i as int);
            }
            values.set(i, (key_string, value));
            proof {
                assert(pairs_shape(values@) =~= shape_upsert(
                    shapes0,
                    key@,
                    value_shape(value),
                ));
            }
            return ;
        }
        i = i + 1;
    }
    proof {
        assert(forall|k: int|
            0 <= k < shapes0.len() ==> (#[trigger] shapes0[k]).0 == values@[k].0@);
        lemma_find_key_none(shapes0, key@);
    }
    values.push((key_string, value));
    proof {
        assert(pairs_shape(values@) =~= shape_upsert(shapes0, key@, value_shape(value)));
    }
}

/// The suffix name's text, if any.
pub open spec fn suffix_view(o: Option<String>) -> Option<Seq<char>> {
    match o {
        Some(sfx) => Some(sfx@),
        None => None,
    }
}

/// The shape of one section: header names and key–value pair shapes.
pub open spec fn section_shape(sec: Section) -> (Seq<char>, Option<Seq<char>>, Seq<
    (Seq<char>, ValueShape),
>) {
    (sec.prefix_name@, suffix_view(sec.suffix_name), pairs_shape(sec.values@))
}

/// A section's key–value lines read from `pos` into `acc`: comments and
/// blanks skipped; the run ends at a `[` or the end of input; each line
/// is an identifier key, a colon, and a value, later keys winning.  An
/// error carries its position.
pub open spec fn spec_section_pairs(
    s: Seq<char>,
    pos: int,
    acc: Seq<(Seq<char>, ValueShape)>,
) -> Result<(Seq<(Seq<char>, ValueShape)>, int), int>
    decreases s.len() - pos when 0 <= pos <= s.len()
{
    let i = spec_skip_comment_lines(s, pos);
    if i >= s.len() {
        Ok((acc, i))
    } else if s[i] == '[' {
        Ok((acc, i))
    } else if !spec_is_ident_start(s[i]) {
        Err(i)
    } else {
        let pk = ident_end(s, i);
        let key = s.subrange(i, pk);
        let j = skip_spaces(s, pk);
        if !(0 <= j < s.len() && s[j] == ':') {
            Err(j)
        } else {
            let j2 = skip_spaces(s, j + 1);
            let (vs, pv) = spec_value_at(s, j2);
            let acc2 = shape_upsert(acc, key, vs);
            if pv <= pos || pv > s.len() {
                Ok((acc2, i))
            } else {
                spec_section_pairs(s, pv, acc2)
            }
        }
    }
}

/// A whole section read from its `[`: the header names, then the pairs.
pub open spec fn spec_parse_section(s: Seq<char>, pos: int) -> Result<
    ((Seq<char>, Option<Seq<char>>, Seq<(Seq<char>, ValueShape)>), int),
    int,
> {
    if !(0 <= pos + 1 < s.len() && spec_is_ident_start(s[pos + 1])) {
        Err(pos + 1)
    } else {
        let pe = ident_end(s, pos + 1);
        let prefix = s.subrange(pos + 1, pe);
        if 0 <= pe < s.len() && s[pe] == ' ' {
            if pe + 1 < s.len() && spec_is_ident_start(s[pe + 1]) {
                let se = ident_end(s, pe + 1);
                spec_section_tail(s, prefix, Some(s.subrange(pe + 1, se)), se)
            } else {
                Err(pe + 1)
            }
        } else {
            spec_section_tail(s, prefix, None, pe)
        }
    }
}

/// The rest of a section after its header names: `]`, the line end, then
/// the pairs.
pub open spec fn spec_section_tail(
    s: Seq<char>,
    prefix: Seq<char>,
    suffix: Option<Seq<char>>,
    i1: int,
) -> Result<((Seq<char>, Option<Seq<char>>, Seq<(Seq<char>, ValueShape)>), int), int> {
    if !(0 <= i1 < s.len() && s[i1] == ']') {
        Err(i1)
    } else {
        let ws = skip_spaces(s, i1 + 1);
        if 0 <= ws < s.len() && s[ws] != '\n' {
            Err(ws)
        } else {
            let i2 = if ws < s.len() {
                ws + 1
            } else {
                ws
            };
            match spec_section_pairs(s, i2, Seq::<(Seq<char>, ValueShape)>::empty()) {
                Ok((pairs, end)) => Ok(((prefix, suffix, pairs), end)),
                Err(e) => Err(e),
            }
        }
    }
}

/// Parse `[prefix suffix?]` and the following key–value lines.
#[verifier::rlimit(100)]
fn parse_section(s: &Vec<char>, pos: usize) -> (r: Result<(Section, usize), ConfigParseError>)
    requires
        pos < s@.len(),
        s@[pos as int] == '[',
    ensures
        match r {
            Ok((sec, p2)) => {
                let pe = ident_end(s@, pos + 1);
                &&& pos < p2 <= s@.len()
                &&& pos + 1 < s@.len() && spec_is_ident_start(s@[pos + 1])
                &&& sec.prefix_name@ == s@.subrange(pos + 1, pe)
                &&& sec.prefix_name@.len() > 0
                &&& match sec.suffix_name {
                    Some(sfx) => 0 <= pe < s@.len() && s@[pe] == ' ' && sfx@ == s@.subrange(
                        pe + 1,
                        ident_end(s@, pe + 1),
                    ) && sfx@.len() > 0,
                    None => !(0 <= pe < s@.len() && s@[pe] == ' '),
                }
                &&& spec_parse_section(s@, pos as int) == Ok::<_, int>(
                    (section_shape(sec), p2 as int),
                )
            },
            Err(e) => e.position <= s@.len() && spec_parse_section(s@, pos as int) == Err::<
                ((Seq<char>, Option<Seq<char>>, Seq<(Seq<char>, ValueShape)>), int),
                int,
            >(e.position as int),
        },
{
    assert(pos < s.len());
    let mut i: usize = pos + 1;
    let (prefix, p1) = match parse_ident(s, i) {
        Some(x) => x,
        None => {
            return Err(
                ConfigParseError {
                    position: i,
                    message: String::from_str("expected a section name"),
                },
            );
        },
    };
    i = p1;
    let mut suffix: Option<Vec<char>> = None;
    if i < s.len() && s[i] == ' ' {
        match parse_ident(s, i + 1) {
            Some((sfx, p2)) => {
                suffix = Some(sfx);
                i = p2;
            },
            None => {
                return Err(
                    ConfigParseError {
                        position: i + 1,
                        message: String::from_str("expected a section suffix"),
                    },
                );
            },
        }
    }
    if !(i < s.len() && s[i] == ']') {
        return Err(
            ConfigParseError { position: i, message: String::from_str("expected `]`") },
        );
    }
    i = i + 1;
    let ws = skip_ws(s, i);
    if ws < s.len() && s[ws] != '\n' {
        return Err(
            ConfigParseError {
                position: ws,
                message: String::from_str("expected the end of the section header line"),
            },
        );
    }
    i = if ws < s.len() {
        ws + 1
    } else {
        ws
    };
    let mut values: Vec<(String, Value)> = Vec::new();
    let ghost pos0: int = i as int;
    let ghost gprefix = prefix@;
    let ghost gsuffix = (match suffix {
        Some(ref v) => Some(v@),
        None => None::<Seq<char>>,
    });
    proof {
        assert(pairs_shape(values@) =~= Seq::<(Seq<char>, ValueShape)>::empty());
        assert(spec_parse_section(s@, pos as int) == (match spec_section_pairs(
            s@,
            pos0,
            Seq::<(Seq<char>, ValueShape)>::empty(),
        ) {
            Ok((pairs, end)) => Ok::<_, int>(((gprefix, gsuffix, pairs), end)),
            Err(e) => Err(e),
        }));
    }
    loop
        invariant_except_break
            pos < i <= s@.len(),
            spec_section_pairs(s@, pos0, Seq::<(Seq<char>, ValueShape)>::empty())
                == spec_section_pairs(s@, i as int, pairs_shape(values@)),
            spec_parse_section(s@, pos as int) == (match spec_section_pairs(
                s@,
                pos0,
                Seq::<(Seq<char>, ValueShape)>::empty(),
            ) {
                Ok((pairs, end)) => Ok::<_, int>(((gprefix, gsuffix, pairs), end)),
                Err(e) => Err(e),
            }),
        ensures
            pos < i <= s@.len(),
            spec_section_pairs(s@, pos0, Seq::<(Seq<char>, ValueShape)>::empty()) == Ok::<
                _,
                int,
            >((pairs_shape(values@), i as int)),
            spec_parse_section(s@, pos as int) == Ok::<_, int>(
                ((gprefix, gsuffix, pairs_shape(values@)), i as int),
            ),
        decreases s@.len() - i,
    {
        let before = i;
        i = skip_comment_lines(s, i);
        if i >= s.len() {
            break ;
        }
        if s[i] == '[' {
            break ;
        }
        let (key, pk) = match parse_ident(s, i) {
            Some(x) => x,
            None => {
                return Err(
                    ConfigParseError {
                        position: i,
                        message: String::from_str("expected a key"),
                    },
                );
            },
        };
        let mut j = skip_ws(s, pk);
        if !(j < s.len() && s[j] == ':') {
            return Err(
                ConfigParseError { position: j, message: String::from_str("expected `:`") },
            );
        }
        j = skip_ws(s, j + 1);
        let (value, pv) = parse_value(s, j);
        set_key_value(&mut values, &key, value);
        if pv <= before {
            break ;
        }
        i = pv;
    }
    let sec = Section {
        prefix_name: chars_to_string(&prefix),
        suffix_name: match suffix {
            Some(sfx) => Some(chars_to_string(&sfx)),
            None => None,
        },
        values,
    };
    Ok((sec, i))
}

/// Append one rendered value, exactly as [`spec_render_value`] says.
fn render_value_into(out: &mut Vec<char>, v: &Value)
    ensures
        final(out)@ == old(out)@ + spec_render_value(value_shape(*v)),
{
    match v {
        Value::Number(n) => {
            render_micro(out, *n);
            out.push('\n');
            proof {
                assert(out@ =~= old(out)@ + spec_render_value(value_shape(*v)));
            }
        },
        Value::Ratio(r) => {
            render_micro(out, *r);
            out.push(':');
            out.push('1');
            out.push('\n');
            proof {
                assert(out@ =~= old(out)@ + spec_render_value(value_shape(*v)));
            }
        },
        Value::String(text) => {
            push_str_chars(out, text.as_str());
            out.push('\n');
            proof {
                assert(out@ =~= old(out)@ + spec_render_value(value_shape(*v)));
            }
        },
        Value::Gcode(body) => {
            out.push('\n');
            let bl = str_chars(body.as_str());
            let mut at_line_start: bool = true;
            let ghost base = out@;
            let ghost mut acc: Seq<char> = Seq::<char>::empty();
            let bn = bl.len();
            let mut j: usize = 0;
            while j < bn
                invariant
                    j <= bn == bl@.len(),
                    bl@ == body@,
                    out@ == base + acc,
                    spec_indent_from(bl@, 0, true) == acc + spec_indent_from(
                        bl@,
                        j as int,
                        at_line_start,
                    ),
                decreases bn - j,
            {
                let ghost acc0 = acc;
                let ghost start0 = at_line_start;
                if at_line_start {
                    out.push('\t');
                    at_line_start = false;
                }
                let c = bl[j];
                out.push(c);
                if c == '\n' {
                    at_line_start = true;
                }
                proof {
                    let piece = (if start0 {
                        seq!['\t']
                    } else {
                        Seq::<char>::empty()
                    }) + seq![bl@[j as int]];
                    acc = acc0 + piece;
                    assert(out@ =~= base + acc);
                    assert(spec_indent_from(bl@, j as int, start0) == piece
                        + spec_indent_from(bl@, j + 1, bl@[j as int] == '\n'));
                    assert(acc0 + (piece + spec_indent_from(bl@, j + 1, bl@[j as int] == '\n'))
                        =~= acc + spec_indent_from(bl@, j + 1, bl@[j as int] == '\n'));
                }
                j = j + 1;
            }
            proof {
                assert(spec_indent_from(bl@, bn as int, at_line_start) =~= Seq::<char>::empty());
                assert(spec_indent_from(bl@, 0, true) =~= acc);
                assert(out@ =~= old(out)@ + spec_render_value(value_shape(*v)));
            }
        },
        Value::NumberArray(vs) => {
            let ghost base = out@;
            let an = vs.len();
            let mut j: usize = 0;
            proof {
                assert(out@ =~= base + spec_join_nums(vs@.take(0)));
            }
            while j < an
                invariant
                    j <= an == vs@.len(),
                    out@ == base + spec_join_nums(vs@.take(j as int)),
                decreases an - j,
            {
                proof {
                    assert(vs@.take(j + 1).drop_last() =~= vs@.take(j as int));
                    assert(vs@.take(j + 1).last() == vs@[j as int]);
                }
                if j > 0 {
                    out.push(',');
                    out.push(' ');
                }
                render_micro(out, vs[j]);
                proof {
                    assert(out@ =~= base + spec_join_nums(vs@.take(j + 1)));
                }
                j = j + 1;
            }
            out.push('\n');
            proof {
                assert(vs@.take(an as int) =~= vs@);
                assert(out@ =~= old(out)@ + spec_render_value(value_shape(*v)));
            }
        },
        Value::StringArray(vs) => {
            let ghost base = out@;
            let ghost tviews = vs@.map_values(|x: String| x@);
            let an = vs.len();
            let mut j: usize = 0;
            proof {
                assert(out@ =~= base + spec_join_texts(tviews.take(0)));
            }
            while j < an
                invariant
                    j <= an == vs@.len(),
                    tviews == vs@.map_values(|x: String| x@),
                    out@ == base + spec_join_texts(tviews.take(j as int)),
                decreases an - j,
            {
                proof {
                    assert(tviews.take(j + 1).drop_last() =~= tviews.take(j as int));
                    assert(tviews.take(j + 1).last() == tviews[j as int]);
                    assert(tviews[j as int] == vs@[j as int]@);
                }
                if j > 0 {
                    out.push(',');
                    out.push(' ');
                }
                push_str_chars(out, vs[j].as_str());
                proof {
                    assert(out@ =~= base + spec_join_texts(tviews.take(j + 1)));
                }
                j = j + 1;
            }
            out.push('\n');
            proof {
                assert(tviews.take(an as int) =~= tviews);
                assert(out@ =~= old(out)@ + spec_render_value(value_shape(*v)));
            }
        },
    }
}

/// Append one rendered section, exactly as [`spec_render_section`] says.
fn render_section_into(out: &mut Vec<char>, sec: &Section)
    ensures
        final(out)@ == old(out)@ + spec_render_section(section_shape(*sec)),
{
    out.push('[');
    push_str_chars(out, sec.prefix_name.as_str());
    match &sec.suffix_name {
        Some(sfx) => {
            out.push(' ');
            push_str_chars(out, sfx.as_str());
        },
        None => {},
    }
    out.push(']');
    out.push('\n');
    let ghost base = out@;
    let ghost pairs = pairs_shape(sec.values@);
    let nv = sec.values.len();
    let mut k: usize = 0;
    proof {
        assert(out@ =~= base + spec_render_pairs(pairs.take(0)));
    }
    while k < nv
        invariant
            k <= nv == sec.values@.len(),
            pairs == pairs_shape(sec.values@),
            out@ == base + spec_render_pairs(pairs.take(k as int)),
        decreases nv - k,
    {
        proof {
            assert(pairs.take(k + 1).drop_last() =~= pairs.take(k as int));
            assert(pairs.take(k + 1).last() == pairs[k as int]);
            assert(pairs[k as int].0 == sec.values@[k as int].0@);
            assert(pairs[k as int].1 == value_shape(sec.values@[k as int].1));
        }
        let pair = &sec.values[k];
        push_str_chars(out, pair.0.as_str());
        out.push(':');
        out.push(' ');
        render_value_into(out, &pair.1);
        proof {
            assert(out@ =~= base + spec_render_pairs(pairs.take(k + 1)));
        }
        k = k + 1;
    }
    proof {
        assert(pairs.take(nv as int) =~= pairs);
        assert(out@ =~= old(out)@ + spec_render_section(section_shape(*sec)));
    }
}

/// The shapes of all sections.
pub open spec fn sections_shape(sections: Seq<Section>) -> Seq<
    (Seq<char>, Option<Seq<char>>, Seq<(Seq<char>, ValueShape)>),
> {
    sections.map_values(|sec: Section| section_shape(sec))
}

/// The sections of a configuration read from `pos` into `acc`: comments
/// and blanks skipped, then sections until the end of input; anything
/// else is an error at its position.
pub open spec fn spec_config_sections(
    s: Seq<char>,
    pos: int,
    acc: Seq<(Seq<char>, Option<Seq<char>>, Seq<(Seq<char>, ValueShape)>)>,
) -> Result<Seq<(Seq<char>, Option<Seq<char>>, Seq<(Seq<char>, ValueShape)>)>, int>
    decreases s.len() - pos when 0 <= pos <= s.len()
{
    let i = spec_skip_comment_lines(s, pos);
    if i >= s.len() {
        Ok(acc)
    } else if s[i] != '[' {
        Err(i)
    } else {
        match spec_parse_section(s, i) {
            Err(e) => Err(e),
            Ok((shape, p)) => {
                if p <= pos || p > s.len() {
                    Ok(acc.push(shape))
                } else {
                    spec_config_sections(s, p, acc.push(shape))
                }
            },
        }
    }
}

/// A whole configuration, mathematically: parsing succeeds exactly when
/// the text derives from the grammar, and then yields the sections'
/// shapes in order; otherwise the failing position.
pub open spec fn spec_parse_config(s: Seq<char>) -> Result<
    Seq<(Seq<char>, Option<Seq<char>>, Seq<(Seq<char>, ValueShape)>)>,
    int,
> {
    spec_config_sections(
        s,
        0,
        Seq::<(Seq<char>, Option<Seq<char>>, Seq<(Seq<char>, ValueShape)>)>::empty(),
    )
}

/// Newlines among the first `upto` characters.
pub open spec fn count_newlines(s: Seq<char>, upto: int) -> int
    decreases upto,
{
    if upto <= 0 {
        0
    } else {
        count_newlines(s, upto - 1) + if 0 <= upto - 1 < s.len() && s[upto - 1] == '\n' {
            1int
        } else {
            0int
        }
    }
}

impl Config {
    /// Parse a whole configuration: comments, then sections until the end
    /// of input.  An error carries the offending position.
    pub fn parse(input: &str) -> (r: Result<Config, ConfigParseError>)
        ensures
            match r {
                Ok(c) => {
                    &&& spec_parse_config(input@) == Ok::<_, int>(sections_shape(c.sections@))
                    &&& forall|i: int|
                        0 <= i < c.sections@.len() ==> (
                        #[trigger] c.sections@[i]).prefix_name@.len() > 0
                },
                Err(e) => e.position <= input@.len() && spec_parse_config(input@) == Err::<
                    Seq<(Seq<char>, Option<Seq<char>>, Seq<(Seq<char>, ValueShape)>)>,
                    int,
                >(e.position as int),
            },
    {
        let s = str_chars(input);
        let mut sections: Vec<Section> = Vec::new();
        let mut i: usize = 0;
        proof {
            assert(sections_shape(sections@) =~= Seq::<
                (Seq<char>, Option<Seq<char>>, Seq<(Seq<char>, ValueShape)>),
            >::empty());
        }
        loop
            invariant_except_break
                i <= s@.len(),
                s@ == input@,
                spec_parse_config(input@) == spec_config_sections(
                    s@,
                    i as int,
                    sections_shape(sections@),
                ),
                forall|j: int|
                    0 <= j < sections@.len() ==> (#[trigger] sections@[j]).prefix_name@.len()
                        > 0,
            ensures
                i <= s@.len(),
                s@ == input@,
                spec_parse_config(input@) == Ok::<_, int>(sections_shape(sections@)),
                forall|j: int|
                    0 <= j < sections@.len() ==> (#[trigger] sections@[j]).prefix_name@.len()
                        > 0,
            decreases s@.len() - i,
        {
            let before = i;
            i = skip_comment_lines(&s, i);
            if i >= s.len() {
                break ;
            }
            if s[i] != '[' {
                return Err(
                    ConfigParseError {
                        position: i,
                        message: String::from_str("expected a section"),
                    },
                );
            }
            match parse_section(&s, i) {
                Ok((sec, p)) => {
                    let ghost shapes0 = sections_shape(sections@);
                    let ghost shape = section_shape(sec);
                    sections.push(sec);
                    proof {
                        assert(sections_shape(sections@) =~= shapes0.push(shape));
                    }
                    if p <= before {
                        break ;
                    }
                    i = p;
                },
                Err(e) => {
                    return Err(e);
                },
            }
        }
        Ok(Config { sections })
    }

    /// The one-based line number of a character offset: one more than the
    /// newlines before it (capped at the offset range's end and at the
    /// counter's limit).
    pub fn line_of_position(input: &str, position: usize) -> (line: usize)
        ensures
            ({
                let upto = if position < input@.len() {
                    position as int
                } else {
                    input@.len() as int
                };
                let exact = 1 + count_newlines(input@, upto);
                line as int == if exact <= usize::MAX {
                    exact
                } else {
                    usize::MAX as int
                }
            }),
    {
        let s = str_chars(input);
        let mut line: usize = 1;
        let mut i: usize = 0;
        let upto = if position < s.len() {
            position
        } else {
            s.len()
        };
        while i < upto
            invariant
                i <= upto <= s@.len(),
                s@ == input@,
                line as int == (if 1 + count_newlines(s@, i as int) <= usize::MAX {
                    1 + count_newlines(s@, i as int)
                } else {
                    usize::MAX as int
                }),
            decreases upto - i,
        {
            if s[i] == '\n' && line < usize::MAX {
                line = line + 1;
            }
            i = i + 1;
        }
        line
    }
}

/// A run of `n` zero characters.
pub open spec fn zero_run(n: int) -> Seq<char> {
    Seq::new(n as nat, |i: int| '0')
}

/// The six fraction digits of a micro-unit remainder, most significant
/// first.
pub open spec fn spec_frac6(frac: int) -> Seq<char> {
    Seq::new(6, |i: int| spec_digit_char((((frac / pow10((5 - i) as nat)) % 10)) as nat))
}

/// The text with its trailing zeros dropped.
pub open spec fn strip_zeros(s: Seq<char>) -> Seq<char>
    decreases s.len(),
{
    if s.len() > 0 && s.last() == '0' {
        strip_zeros(s.drop_last())
    } else {
        s
    }
}

/// Stripping removes exactly a zero tail.
proof fn lemma_strip_zero_pad(x: Seq<char>, n: int)
    requires
        n >= 0,
        x.len() == 0 || x.last() != '0',
    ensures
        strip_zeros(x + zero_run(n)) == x,
    decreases n,
{
    if n == 0 {
        assert(x + zero_run(0) =~= x);
    } else {
        assert((x + zero_run(n)).last() == '0');
        assert((x + zero_run(n)).drop_last() =~= x + zero_run(n - 1));
        lemma_strip_zero_pad(x, n - 1);
    }
}

/// The first `j` fraction digits read back: the remainder shifted down.
proof fn lemma_frac6_val(frac: int, j: int)
    requires
        0 <= frac < 1_000_000,
        0 <= j <= 6,
    ensures
        crate::numbers::digits_val_upto(spec_frac6(frac), 0, j) == frac / pow10((6 - j) as nat),
        crate::numbers::digit_count(spec_frac6(frac), 0, j) == j,
        forall|i: int| 0 <= i < 6 ==> spec_is_digit(#[trigger] spec_frac6(frac)[i]),
    decreases j,
{
    crate::numbers::lemma_pow10_pos(6);
    assert(pow10(6) == 1_000_000) by {
        reveal_with_fuel(pow10, 8);
    };
    assert(forall|i: int| 0 <= i < 6 ==> spec_is_digit(#[trigger] spec_frac6(frac)[i])) by {
        assert forall|i: int| 0 <= i < 6 implies spec_is_digit(
            #[trigger] spec_frac6(frac)[i],
        ) by {
            crate::numbers::lemma_pow10_pos((5 - i) as nat);
            crate::numbers::lemma_digit_char_is_digit(
                (((frac / pow10((5 - i) as nat)) % 10)) as nat,
            );
        };
    };
    if j == 0 {
        crate::numbers::lemma_pow10_pos(6);
        vstd::arithmetic::div_mod::lemma_basic_div(frac, pow10(6));
    } else {
        lemma_frac6_val(frac, j - 1);
        let d = (frac / pow10((5 - (j - 1)) as nat)) % 10;
        crate::numbers::lemma_pow10_pos((6 - j) as nat);
        crate::numbers::lemma_digit_char_is_digit(d as nat);
        assert(spec_frac6(frac)[j - 1] == spec_digit_char(d as nat));
        // frac / 10^(6-j) decomposes into its higher quotient and this
        // digit.
        assert(pow10((7 - j) as nat) == pow10((6 - j) as nat) * 10) by {
            assert(pow10((7 - j) as nat) == 10 * pow10((6 - j) as nat));
        };
        vstd::arithmetic::div_mod::lemma_div_denominator(frac, pow10((6 - j) as nat), 10);
        let q = frac / pow10((6 - j) as nat);
        vstd::arithmetic::div_mod::lemma_fundamental_div_mod(q, 10);
        assert(q == 10 * (q / 10) + q % 10);
        assert(q / 10 == frac / pow10((7 - j) as nat));
        assert(q % 10 == (frac / pow10((5 - (j - 1)) as nat)) % 10);
    }
}

/// Stripping yields a prefix whose dropped tail is all zeros and whose
/// own last character, if any, is not zero.
proof fn lemma_strip_is_prefix(s: Seq<char>)
    ensures
        strip_zeros(s).len() <= s.len(),
        strip_zeros(s) == s.take(strip_zeros(s).len() as int),
        forall|i: int| strip_zeros(s).len() <= i < s.len() ==> #[trigger] s[i] == '0',
        strip_zeros(s).len() > 0 ==> strip_zeros(s).last() != '0',
    decreases s.len(),
{
    if s.len() > 0 && s.last() == '0' {
        lemma_strip_is_prefix(s.drop_last());
        assert(s.drop_last().take(strip_zeros(s).len() as int) =~= s.take(
            strip_zeros(s).len() as int,
        ));
        assert forall|i: int| strip_zeros(s).len() <= i < s.len() implies #[trigger] s[i]
            == '0' by {
            if i < s.len() - 1 {
                assert(s.drop_last()[i] == s[i]);
            }
        };
    } else {
        assert(s.take(s.len() as int) =~= s);
    }
}

/// A fraction whose trailing digits are zero is divisible by their scale.
proof fn lemma_zero_tail_divides(frac: int, m: int)
    requires
        0 <= frac < 1_000_000,
        0 <= m <= 6,
        forall|i: int| 6 - m <= i < 6 ==> #[trigger] spec_frac6(frac)[i] == '0',
    ensures
        frac % pow10(m as nat) == 0,
    decreases m,
{
    if m == 0 {
        assert(pow10(0) == 1);
        vstd::arithmetic::div_mod::lemma_mod_multiples_basic(frac, 1);
    } else {
        lemma_zero_tail_divides(frac, m - 1);
        let b = pow10((m - 1) as nat);
        crate::numbers::lemma_pow10_pos((m - 1) as nat);
        // The digit at the boundary is zero.
        assert(spec_frac6(frac)[6 - m] == '0');
        let d = (frac / pow10((5 - (6 - m)) as nat)) % 10;
        assert(spec_digit_char(d as nat) == '0');
        assert(d == 0) by {
            if d != 0 {
                assert(spec_digit_char(d as nat) != '0');
            }
        };
        assert((5 - (6 - m)) as nat == (m - 1) as nat);
        vstd::arithmetic::div_mod::lemma_breakdown(frac, b, 10);
        assert(frac % (b * 10) == b * ((frac / b) % 10) + frac % b);
        assert(pow10(m as nat) == 10 * b);
        assert(b * 10 == 10 * b) by (nonlinear_arith);
        assert(b * 0 == 0) by (nonlinear_arith);
    }
}

/// The canonical decimal text of a micro-unit value: an optional sign,
/// the whole part's digits, then — when a fraction remains — a point and
/// the fraction digits with trailing zeros dropped.
pub open spec fn spec_render_micro(v: i64) -> Seq<char> {
    let mag = if v < 0 {
        -(v as int)
    } else {
        v as int
    };
    let whole = mag / 1_000_000;
    let frac = mag % 1_000_000;
    (if v < 0 {
        seq!['-']
    } else {
        Seq::<char>::empty()
    }) + spec_render_digits(whole as nat) + (if frac > 0 {
        seq!['.'] + strip_zeros(spec_frac6(frac))
    } else {
        Seq::<char>::empty()
    })
}

/// LAW (number round trip): rendering any micro-unit value to its
/// canonical decimal text and scanning that text back yields exactly the
/// original value.  With the serialiser's contract this is the number
/// half of the configuration round trip: every `Number` the serialiser
/// writes is read back unchanged.
pub proof fn lemma_render_micro_round_trip(v: i64)
    ensures
        crate::numbers::spec_parse_number(spec_render_micro(v)) == Some(v),
{
    let s = spec_render_micro(v);
    let mag = if v < 0 {
        -(v as int)
    } else {
        v as int
    };
    let whole = mag / 1_000_000;
    let frac = mag % 1_000_000;
    let w = spec_render_digits(whole as nat);
    let sign: Seq<char> = if v < 0 {
        seq!['-']
    } else {
        Seq::<char>::empty()
    };
    let i0: int = sign.len() as int;
    assert(pow10(6) == 1_000_000 && pow10(13) == 10_000_000_000_000 && pow10(0) == 1) by {
        reveal_with_fuel(pow10, 15);
    };
    vstd::arithmetic::div_mod::lemma_fundamental_div_mod(mag, 1_000_000);
    assert(0 <= frac < 1_000_000);
    assert(mag <= 9_223_372_036_854_775_808);
    vstd::arithmetic::div_mod::lemma_div_is_ordered(mag, 9_223_372_036_854_775_808, 1_000_000);
    assert(whole < pow10(13));
    crate::numbers::lemma_render_digits_shape(whole as nat);
    crate::numbers::lemma_render_digits_value(whole as nat);
    crate::numbers::lemma_render_digits_len(whole as nat, 13);
    let wlen = w.len() as int;
    let i1 = i0 + wlen;
    // The whole-part digits sit in the window [i0, i1).
    assert(forall|k: int| i0 <= k < i1 ==> #[trigger] s[k] == w[k - i0]);
    assert(forall|k: int|
        i0 <= k < i1 ==> crate::numbers::spec_is_digit(#[trigger] s[k]));
    assert(s[0] == (if v < 0 {
        '-'
    } else {
        w[0]
    }));
    if v < 0 {
        assert(!crate::numbers::spec_is_digit('-') && '-' != '+');
    }
    assert(crate::numbers::spec_is_digit(s[i0]));
    if frac > 0 {
        let f6 = spec_frac6(frac);
        let f = strip_zeros(f6);
        lemma_strip_is_prefix(f6);
        let fc = f.len() as int;
        lemma_frac6_val(frac, 6);
        lemma_frac6_val(frac, fc);
        assert(s.len() == i1 + 1 + fc);
        assert(s[i1] == '.');
        assert(!(crate::numbers::spec_is_digit('.') || '.' == '_'));
        crate::numbers::lemma_digits_end_until(s, i0, i1);
        crate::numbers::lemma_digits_window(s, i0, i1);
        assert(s.subrange(i0, i1) =~= w);
        // The fraction digits sit after the point, to the end.
        assert(forall|k: int| i1 + 1 <= k < s.len() ==> #[trigger] s[k] == f[k - (i1 + 1)]);
        assert(f =~= f6.take(fc));
        assert(forall|k: int|
            i1 + 1 <= k < s.len() ==> crate::numbers::spec_is_digit(#[trigger] s[k])) by {
            assert(forall|i: int| 0 <= i < fc ==> #[trigger] f[i] == f6[i]);
        };
        crate::numbers::lemma_digits_end_until(s, i1 + 1, s.len() as int);
        crate::numbers::lemma_digits_window(s, i1 + 1, s.len() as int);
        assert(s.subrange(i1 + 1, s.len() as int) =~= f);
        crate::numbers::lemma_digits_window(f6, 0, fc);
        assert(f6.subrange(0, fc) =~= f);
        let p = pow10((6 - fc) as nat);
        crate::numbers::lemma_pow10_pos((6 - fc) as nat);
        let fv = frac / p;
        assert(crate::numbers::digits_val_upto(s, i1 + 1, s.len() as int) == fv);
        assert(crate::numbers::digit_count(s, i1 + 1, s.len() as int) == fc);
        // Trailing zeros past the kept digits make the remainder
        // divisible by their scale.
        lemma_zero_tail_divides(frac, 6 - fc);
        vstd::arithmetic::div_mod::lemma_fundamental_div_mod(frac, p);
        assert(frac == p * fv);
        // Walk the scanner: sign, whole digits, point, fraction digits,
        // no exponent.
        let iv = whole;
        let mag_s = iv * pow10(fc as nat) + fv;
        let k = 6 - fc;
        crate::numbers::lemma_pow10_sum(fc as nat, (6 - fc) as nat);
        assert(mag_s * pow10(k as nat) == whole * 1_000_000 + frac) by (nonlinear_arith)
            requires
                mag_s == iv * pow10(fc as nat) + fv,
                iv == whole,
                pow10(fc as nat) * pow10(k as nat) == pow10(6),
                pow10(6) == 1_000_000,
                frac == pow10(k as nat) * fv,
                p == pow10(k as nat),
        ;
        assert(whole * 1_000_000 + frac == mag) by {
            assert(mag == 1_000_000 * whole + frac);
            assert(whole * 1_000_000 == 1_000_000 * whole) by (nonlinear_arith);
        };
        assert(crate::numbers::spec_scale(mag_s, k, v < 0) == Some(v)) by {
            assert(mag_s * pow10(k as nat) == mag);
        };
        assert(crate::numbers::spec_scan_number(s, 0) == Some((v as int, s.len() as int)));
    } else {
        assert(s.len() == i1);
        crate::numbers::lemma_digits_end_until(s, i0, i1);
        crate::numbers::lemma_digits_window(s, i0, i1);
        assert(s.subrange(i0, i1) =~= w);
        let mag_s = whole * pow10(0) + 0;
        assert(mag_s == whole) by (nonlinear_arith)
            requires
                mag_s == whole * 1 + 0,
        ;
        assert(crate::numbers::spec_scale(whole, 6, v < 0) == Some(v)) by {
            assert(whole * pow10(6) == mag) by {
                assert(mag == 1_000_000 * whole + frac);
                assert(frac == 0);
                assert(whole * 1_000_000 == 1_000_000 * whole) by (nonlinear_arith);
            };
        };
        assert(crate::numbers::spec_scan_number(s, 0) == Some((v as int, s.len() as int)));
    }
}

/// Append the canonical decimal text of a micro-unit value, exactly as
/// [`spec_render_micro`] says.  The number scanner reads the rendering
/// back to the same value ([`lemma_render_micro_round_trip`]).
fn render_micro(out: &mut Vec<char>, v: i64)
    ensures
        final(out)@ == old(out)@ + spec_render_micro(v),
        v >= 0 && v % 1_000_000 == 0 ==> final(out)@ == old(out)@ + spec_render_digits(
            (v / 1_000_000) as nat,
        ),
{
    let mag: u64 = if v < 0 {
        out.push('-');
        if v == i64::MIN {
            9_223_372_036_854_775_808u64
        } else {
            (-v) as u64
        }
    } else {
        v as u64
    };
    let whole: u64 = mag / 1_000_000;
    let frac: u64 = mag % 1_000_000;
    render_u64(out, whole);
    if frac > 0 {
        out.push('.');
        let ghost gfrac: int = frac as int;
        let mut digits: Vec<char> = Vec::new();
        let mut scale: u64 = 100_000;
        let mut pending_zeros: usize = 0;
        let mut k: usize = 0;
        proof {
            assert(pow10(5) == 100_000) by {
                reveal_with_fuel(pow10, 7);
            };
            assert(digits@ + zero_run(0) =~= spec_frac6(gfrac).take(0));
        }
        while k < 6
            invariant
                k <= 6,
                gfrac == frac as int,
                frac < 1_000_000,
                k < 6 ==> scale as int == pow10((5 - k) as nat),
                pending_zeros <= k,
                digits@ + zero_run(pending_zeros as int) == spec_frac6(gfrac).take(k as int),
                digits@.len() == 0 || digits@.last() != '0',
            decreases 6 - k,
        {
            proof {
                crate::numbers::lemma_pow10_pos((5 - k) as nat);
            }
            let d: u64 = (frac / scale) % 10;
            proof {
                assert(spec_frac6(gfrac)[k as int] == spec_digit_char(d as nat));
                assert(spec_frac6(gfrac).take(k + 1) =~= spec_frac6(gfrac).take(
                    k as int,
                ).push(spec_digit_char(d as nat)));
            }
            if d == 0 {
                pending_zeros = pending_zeros + 1;
                proof {
                    assert(spec_digit_char(0) == '0');
                    assert(digits@ + zero_run(pending_zeros as int) =~= (digits@ + zero_run(
                        pending_zeros - 1,
                    )).push('0'));
                }
            } else {
                let ghost dg0 = digits@;
                let mut z: usize = 0;
                while z < pending_zeros
                    invariant
                        z <= pending_zeros,
                        digits@ == dg0 + zero_run(z as int),
                    decreases pending_zeros - z,
                {
                    digits.push('0');
                    proof {
                        assert(digits@ =~= dg0 + zero_run(z + 1));
                    }
                    z = z + 1;
                }
                digits.push(digit_char(d));
                proof {
                    assert(spec_digit_char(d as nat) != '0');
                    assert(digits@ =~= (dg0 + zero_run(pending_zeros as int)).push(
                        spec_digit_char(d as nat),
                    ));
                    assert(digits@ + zero_run(0) =~= digits@);
                }
                pending_zeros = 0;
            }
            if k < 5 {
                proof {
                    assert(pow10((5 - k) as nat) == 10 * pow10((5 - (k + 1)) as nat));
                }
                scale = scale / 10;
            }
            k = k + 1;
        }
        proof {
            assert(spec_frac6(gfrac).take(6) =~= spec_frac6(gfrac));
            lemma_strip_zero_pad(digits@, pending_zeros as int);
            assert(strip_zeros(spec_frac6(gfrac)) == digits@);
        }
        let ghost outp = out@;
        let n = digits.len();
        let mut q: usize = 0;
        while q < n
            invariant
                q <= n == digits@.len(),
                out@ == outp + digits@.take(q as int),
            decreases n - q,
        {
            out.push(digits[q]);
            proof {
                assert(out@ =~= outp + digits@.take(q + 1));
            }
            q = q + 1;
        }
        proof {
            assert(digits@.take(n as int) =~= digits@);
            assert(out@ =~= old(out)@ + spec_render_micro(v));
        }
    } else {
        proof {
            assert(out@ =~= old(out)@ + spec_render_micro(v));
        }
    }
}

/// The character of one decimal digit./// The character of one decimal digit.
fn digit_char(d: u64) -> (c: char)
    requires
        d <= 9,
    ensures
        c == spec_digit_char(d as nat),
{
    if d == 0 {
        '0'
    } else if d == 1 {
        '1'
    } else if d == 2 {
        '2'
    } else if d == 3 {
        '3'
    } else if d == 4 {
        '4'
    } else if d == 5 {
        '5'
    } else if d == 6 {
        '6'
    } else if d == 7 {
        '7'
    } else if d == 8 {
        '8'
    } else {
        '9'
    }
}

/// Append the decimal text of a number: exactly its canonical digits.
fn render_u64(out: &mut Vec<char>, v: u64)
    ensures
        final(out)@ == old(out)@ + spec_render_digits(v as nat),
    decreases v,
{
    if v < 10 {
        out.push(digit_char(v));
        proof {
            assert(final(out)@ =~= old(out)@ + spec_render_digits(v as nat));
        }
        return ;
    }
    render_u64(out, v / 10);
    out.push(digit_char(v % 10));
    proof {
        assert(final(out)@ =~= old(out)@ + spec_render_digits(v as nat));
    }
}

/// Append every character of a string.
fn push_str_chars(out: &mut Vec<char>, s: &str)
    ensures
        final(out)@ == old(out)@ + s@,
{
    let cs = str_chars(s);
    let n = cs.len();
    let mut k: usize = 0;
    while k < n
        invariant
            k <= n == cs@.len(),
            cs@ == s@,
            out@ == old(out)@ + cs@.take(k as int),
        decreases n - k,
    {
        out.push(cs[k]);
        proof {
            assert(out@ =~= old(out)@ + cs@.take(k + 1));
        }
        k = k + 1;
    }
    proof {
        assert(cs@.take(n as int) =~= cs@);
    }
}

/// An indented copy of a block body from position `i`: a tab opens every
/// line.
pub open spec fn spec_indent_from(b: Seq<char>, i: int, at_start: bool) -> Seq<char>
    decreases b.len() - i when 0 <= i <= b.len()
{
    if i >= b.len() {
        Seq::<char>::empty()
    } else {
        (if at_start {
            seq!['\t']
        } else {
            Seq::<char>::empty()
        }) + seq![b[i]] + spec_indent_from(b, i + 1, b[i] == '\n')
    }
}

/// Comma-joined renderings of numbers.
pub open spec fn spec_join_nums(a: Seq<i64>) -> Seq<char>
    decreases a.len(),
{
    if a.len() == 0 {
        Seq::<char>::empty()
    } else if a.len() == 1 {
        spec_render_micro(a[0])
    } else {
        spec_join_nums(a.drop_last()) + seq![',', ' '] + spec_render_micro(a.last())
    }
}

/// Comma-joined texts.
pub open spec fn spec_join_texts(a: Seq<Seq<char>>) -> Seq<char>
    decreases a.len(),
{
    if a.len() == 0 {
        Seq::<char>::empty()
    } else if a.len() == 1 {
        a[0]
    } else {
        spec_join_texts(a.drop_last()) + seq![',', ' '] + a.last()
    }
}

/// The rendered text of one value, with its terminating newline: a
/// number canonically; a ratio as a single `value:1` link; a string as
/// itself; a G-code block as a newline and its tab-indented lines;
/// arrays comma-joined.
pub open spec fn spec_render_value(shape: ValueShape) -> Seq<char> {
    match shape {
        ValueShape::Num(n) => spec_render_micro(n) + seq!['\n'],
        ValueShape::Rat(r) => spec_render_micro(r) + seq![':', '1', '\n'],
        ValueShape::Text(t) => t + seq!['\n'],
        ValueShape::Block(b) => seq!['\n'] + spec_indent_from(b, 0, true),
        ValueShape::Nums(a) => spec_join_nums(a) + seq!['\n'],
        ValueShape::Texts(a) => spec_join_texts(a) + seq!['\n'],
    }
}

/// The rendered key–value lines of a section, in order.
pub open spec fn spec_render_pairs(pairs: Seq<(Seq<char>, ValueShape)>) -> Seq<char>
    decreases pairs.len(),
{
    if pairs.len() == 0 {
        Seq::<char>::empty()
    } else {
        spec_render_pairs(pairs.drop_last()) + pairs.last().0 + seq![':', ' ']
            + spec_render_value(pairs.last().1)
    }
}

/// The rendered text of one section: its header line and its pairs.
pub open spec fn spec_render_section(
    shape: (Seq<char>, Option<Seq<char>>, Seq<(Seq<char>, ValueShape)>),
) -> Seq<char> {
    seq!['['] + shape.0 + (match shape.1 {
        Some(sfx) => seq![' '] + sfx,
        None => Seq::<char>::empty(),
    }) + seq![']', '\n'] + spec_render_pairs(shape.2)
}

/// The rendered text of a whole configuration: its sections in order.
pub open spec fn spec_render_config(
    shapes: Seq<(Seq<char>, Option<Seq<char>>, Seq<(Seq<char>, ValueShape)>)>,
) -> Seq<char>
    decreases shapes.len(),
{
    if shapes.len() == 0 {
        Seq::<char>::empty()
    } else {
        spec_render_config(shapes.drop_last()) + spec_render_section(shapes.last())
    }
}

impl Config {
    /// Render the recognised subset back to text, exactly as
    /// [`spec_render_config`] says: each section header, then each key
    /// and value.  Numbers print canonically and scan back to the same
    /// value ([`lemma_render_micro_round_trip`]); a ratio prints as a
    /// single `value:1` link; a G-code block prints with one tab of
    /// indentation; arrays, which the grammar does not produce, print
    /// comma-joined.
    pub fn serialise(&self) -> (out: String)
        ensures
            out@ == spec_render_config(sections_shape(self.sections@)),
    {
        let mut out: Vec<char> = Vec::new();
        let ghost shapes = sections_shape(self.sections@);
        let ns = self.sections.len();
        let mut i: usize = 0;
        proof {
            assert(out@ =~= spec_render_config(shapes.take(0)));
        }
        while i < ns
            invariant
                i <= ns == self.sections@.len(),
                shapes == sections_shape(self.sections@),
                out@ == spec_render_config(shapes.take(i as int)),
            decreases ns - i,
        {
            proof {
                assert(shapes.take(i + 1).drop_last() =~= shapes.take(i as int));
                assert(shapes.take(i + 1).last() == shapes[i as int]);
                assert(shapes[i as int] == section_shape(self.sections@[i as int]));
            }
            render_section_into(&mut out, &self.sections[i]);
            i = i + 1;
        }
        proof {
            assert(shapes.take(ns as int) =~= shapes);
        }
        chars_to_string(&out)
    }
}

/// Per-instance boot settings.
#[derive(Debug, Clone)]
pub struct InstanceConfig {
    /// Unique identifier of the instance.
    pub uuid: u128,
    /// Path of the instance's printer configuration.
    pub config_path: String,
}

/// The service-wide configuration: the instances to boot, by name.
#[derive(Debug, Clone)]
pub struct GantryConfig {
    pub instances: Vec<(String, InstanceConfig)>,
}

impl GantryConfig {
    /// Parse the service configuration; the recognised content is not yet
    /// specified, so the result carries no instances.
    pub fn parse(_file: &str) -> (r: Result<GantryConfig, ()>)
        ensures
            r matches Ok(c) && c.instances@.len() == 0,
    {
        Ok(GantryConfig { instances: Vec::new() })
    }
}

} // verus!
