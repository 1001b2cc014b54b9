//! Fixed-point number scanning.
//!
//! Decimal and scientific literals, with underscores as digit separators,
//! are evaluated exactly into micro-units (millionths).  The recognised
//! subset is pinned down by [`spec_scan_number`]: at most nineteen
//! significant digits, an exponent of magnitude at most twenty-seven, and a
//! value that fits a signed 64-bit count of micro-units; everything else is
//! rejected, and a caller falls back to treating the text as a string.

use vstd::prelude::*;

verus! {

/// An ASCII decimal digit.
pub open spec fn spec_is_digit(c: char) -> bool {
    '0' <= c && c <= '9'
}

/// Numeric value of a digit.
pub open spec fn digit_val(c: char) -> int {
    c as int - '0' as int
}

/// Whether `c` is an ASCII decimal digit.
pub fn is_digit(c: char) -> (r: bool)
    ensures
        r == spec_is_digit(c),
{
    '0' <= c && c <= '9'
}

/// Numeric value of a digit character.
pub fn digit_value(c: char) -> (r: u32)
    requires
        spec_is_digit(c),
    ensures
        r as int == digit_val(c),
        r <= 9,
{
    c as u32 - '0' as u32
}

/// Ten to the `k`.
pub open spec fn pow10(k: nat) -> int
    decreases k,
{
    if k == 0 {
        1
    } else {
        10 * pow10((k - 1) as nat)
    }
}

/// Powers of ten are positive and grow.
pub proof fn lemma_pow10_pos(k: nat)
    ensures
        pow10(k) >= 1,
        k >= 1 ==> pow10(k) >= 10,
    decreases k,
{
    if k > 0 {
        lemma_pow10_pos((k - 1) as nat);
    }
}

/// Larger exponents give larger powers.
pub proof fn lemma_pow10_mono(a: nat, b: nat)
    requires
        a <= b,
    ensures
        pow10(a) <= pow10(b),
    decreases b,
{
    if a < b {
        lemma_pow10_mono(a, (b - 1) as nat);
        lemma_pow10_pos((b - 1) as nat);
    }
}

/// End of the run of digits and underscores starting at `i`.
pub open spec fn digits_end(s: Seq<char>, i: int) -> int
    decreases s.len() - i when i <= s.len()
{
    if 0 <= i < s.len() && (spec_is_digit(s[i]) || s[i] == '_') {
        digits_end(s, i + 1)
    } else {
        i
    }
}

/// The value of the digits in `s[i..j)`, underscores skipped.
pub open spec fn digits_val_upto(s: Seq<char>, i: int, j: int) -> int
    decreases j - i,
{
    if j <= i {
        0
    } else {
        let rest = digits_val_upto(s, i, j - 1);
        if spec_is_digit(s[j - 1]) {
            rest * 10 + digit_val(s[j - 1])
        } else {
            rest
        }
    }
}

/// How many digits (not underscores) stand in `s[i..j)`.
pub open spec fn digit_count(s: Seq<char>, i: int, j: int) -> int
    decreases j - i,
{
    if j <= i {
        0
    } else {
        digit_count(s, i, j - 1) + if spec_is_digit(s[j - 1]) {
            1int
        } else {
            0int
        }
    }
}

/// A digit run's value stays below ten to its digit count.
pub proof fn lemma_digits_val_bound(s: Seq<char>, i: int, j: int)
    ensures
        0 <= digits_val_upto(s, i, j),
        digits_val_upto(s, i, j) < pow10(digit_count(s, i, j) as nat) || digit_count(s, i, j)
            < 0,
        0 <= digit_count(s, i, j) || j < i,
    decreases j - i,
{
    if j <= i {
    } else {
        lemma_digits_val_bound(s, i, j - 1);
        let rest = digits_val_upto(s, i, j - 1);
        let rc = digit_count(s, i, j - 1);
        if spec_is_digit(s[j - 1]) {
            assert(rest * 10 + digit_val(s[j - 1]) < pow10((rc + 1) as nat)) by {
                assert(rest < pow10(rc as nat));
                assert(rest * 10 <= (pow10(rc as nat) - 1) * 10) by (nonlinear_arith)
                    requires
                        rest <= pow10(rc as nat) - 1,
                ;
                assert(pow10((rc + 1) as nat) == 10 * pow10(rc as nat));
                assert(digit_val(s[j - 1]) <= 9);
            };
        }
    }
}

/// The run end never moves backwards and stays inside the text.
pub proof fn lemma_digits_end_ge(s: Seq<char>, i: int)
    requires
        0 <= i <= s.len(),
    ensures
        i <= digits_end(s, i) <= s.len(),
    decreases s.len() - i,
{
    if i < s.len() && (spec_is_digit(s[i]) || s[i] == '_') {
        lemma_digits_end_ge(s, i + 1);
    }
}

/// A magnitude scaled by a power of ten and signed, when the result fits
/// a signed 64-bit count: negative scales divide, truncating towards zero.
pub open spec fn spec_scale(mag: int, k: int, neg: bool) -> Option<i64> {
    let v = if k >= 0 {
        mag * pow10(k as nat)
    } else {
        mag / pow10((-k) as nat)
    };
    let sv = if neg {
        -v
    } else {
        v
    };
    if i64::MIN <= sv <= i64::MAX {
        Some(sv as i64)
    } else {
        None
    }
}

/// The number scanner, mathematically: scanning `s` from `from` either
/// rejects or yields the value in micro-units together with the position
/// after the literal.
///
/// Shape: an optional sign, an integer digit run (underscores allowed after
/// the first digit), an optional `.` with a fraction run, an optional
/// exponent `e`/`E` with optional sign and a digit run (only consumed when
/// well-formed).  Rejected: no leading digit; more than nineteen digits of
/// mantissa; an exponent beyond twenty-seven; a value outside the signed
/// 64-bit micro-unit range.  Fraction digits beyond the scale are cut
/// towards zero.
pub open spec fn spec_scan_number(s: Seq<char>, from: int) -> Option<(int, int)> {
    let neg = 0 <= from < s.len() && s[from] == '-';
    let signed = 0 <= from < s.len() && (s[from] == '-' || s[from] == '+');
    let i0 = if signed {
        from + 1
    } else {
        from
    };
    if !(0 <= i0 < s.len() && spec_is_digit(s[i0])) {
        None
    } else {
        let i1 = digits_end(s, i0);
        let iv = digits_val_upto(s, i0, i1);
        let ic = digit_count(s, i0, i1);
        let has_frac = i1 < s.len() && s[i1] == '.';
        let i2 = if has_frac {
            digits_end(s, i1 + 1)
        } else {
            i1
        };
        let fv = if has_frac {
            digits_val_upto(s, i1 + 1, i2)
        } else {
            0
        };
        let fc = if has_frac {
            digit_count(s, i1 + 1, i2)
        } else {
            0
        };
        let has_e = i2 < s.len() && (s[i2] == 'e' || s[i2] == 'E');
        let esigned = has_e && i2 + 1 < s.len() && (s[i2 + 1] == '-' || s[i2 + 1] == '+');
        let eneg = has_e && i2 + 1 < s.len() && s[i2 + 1] == '-';
        let e1 = if esigned {
            i2 + 2
        } else {
            i2 + 1
        };
        let has_exp = has_e && e1 < s.len() && spec_is_digit(s[e1]);
        let e2 = if has_exp {
            digits_end(s, e1)
        } else {
            i2
        };
        let ev0 = if has_exp {
            digits_val_upto(s, e1, e2)
        } else {
            0
        };
        let end = if has_exp {
            e2
        } else {
            i2
        };
        let ec = if has_exp {
            digit_count(s, e1, e2)
        } else {
            0
        };
        if ic + fc > 19 || (has_exp && (ev0 > 27 || ec > 19)) {
            None
        } else {
            let mag = iv * pow10(fc as nat) + fv;
            let k = 6 + (if has_exp && eneg {
                -ev0
            } else {
                ev0
            }) - fc;
            if mag != 0 && k > 18 {
                None
            } else {
                match spec_scale(mag, k, neg) {
                    Some(sv) => Some((sv as int, end)),
                    None => None,
                }
            }
        }
    }
}

/// The whole slice read as one number, or nothing.
pub open spec fn spec_parse_number(s: Seq<char>) -> Option<i64> {
    match spec_scan_number(s, 0) {
        Some((v, end)) => if end == s.len() {
            Some(v as i64)
        } else {
            None
        },
        None => None,
    }
}

/// Scan one digit-and-underscore run.  The reported count caps at twenty;
/// the value is exact whenever at most nineteen digits were seen.
fn scan_digit_run(s: &Vec<char>, from: usize) -> (res: (u64, u32, usize))
    requires
        from <= s@.len(),
    ensures
        res.2 as int == digits_end(s@, from as int),
        from <= res.2 <= s@.len(),
        res.1 as int == if digit_count(s@, from as int, res.2 as int) <= 20 {
            digit_count(s@, from as int, res.2 as int)
        } else {
            20int
        },
        digit_count(s@, from as int, res.2 as int) <= 19 ==> res.0 as int == digits_val_upto(
            s@,
            from as int,
            res.2 as int,
        ),
{
    let mut i: usize = from;
    let mut acc: u64 = 0;
    let mut cnt: u32 = 0;
    loop
        invariant_except_break
            from <= i <= s@.len(),
            digits_end(s@, from as int) == digits_end(s@, i as int),
            cnt as int == if digit_count(s@, from as int, i as int) <= 20 {
                digit_count(s@, from as int, i as int)
            } else {
                20int
            },
            digit_count(s@, from as int, i as int) <= 19 ==> acc as int == digits_val_upto(
                s@,
                from as int,
                i as int,
            ),
            cnt <= 20,
        ensures
            from <= i <= s@.len(),
            digits_end(s@, from as int) == i as int,
            cnt as int == if digit_count(s@, from as int, i as int) <= 20 {
                digit_count(s@, from as int, i as int)
            } else {
                20int
            },
            digit_count(s@, from as int, i as int) <= 19 ==> acc as int == digits_val_upto(
                s@,
                from as int,
                i as int,
            ),
        decreases s@.len() - i,
    {
        if i >= s.len() {
            proof {
                assert(digits_end(s@, i as int) == i as int);
            }
            break ;
        }
        let c = s[i];
        if !(is_digit(c) || c == '_') {
            proof {
                assert(digits_end(s@, i as int) == i as int);
            }
            break ;
        }
        proof {
            assert(digit_count(s@, from as int, i + 1) == digit_count(s@, from as int, i as int)
                + if spec_is_digit(s@[i as int]) {
                1int
            } else {
                0int
            });
            lemma_digits_val_bound(s@, from as int, i as int);
        }
        if is_digit(c) {
            if cnt < 19 {
                let d = digit_value(c);
                proof {
                    assert(digit_count(s@, from as int, i as int) <= 18);
                    assert(acc < pow10(18)) by {
                        lemma_pow10_mono(
                            digit_count(s@, from as int, i as int) as nat,
                            18,
                        );
                    };
                    assert(pow10(18) == 1_000_000_000_000_000_000) by {
                        reveal_with_fuel(pow10, 20);
                    };
                }
                acc = acc * 10 + d as u64;
                cnt = cnt + 1;
            } else if cnt < 20 {
                cnt = 20;
            }
        }
        i = i + 1;
    }
    (acc, cnt, i)
}

/// Scan a number starting at `from`, exactly as [`spec_scan_number`] says.
#[verifier::rlimit(100)]
pub fn scan_number(s: &Vec<char>, from: usize) -> (r: Option<(i64, usize)>)
    requires
        from <= s@.len(),
    ensures
        match r {
            Some((v, end)) => {
                &&& spec_scan_number(s@, from as int) == Some((v as int, end as int))
                &&& from < end <= s@.len()
            },
            None => spec_scan_number(s@, from as int) is None,
        },
{
    let len = s.len();
    let neg = from < len && s[from] == '-';
    let signed = from < len && (s[from] == '-' || s[from] == '+');
    let i0 = if signed {
        from + 1
    } else {
        from
    };
    if !(i0 < len && is_digit(s[i0])) {
        return None;
    }
    let (iv, ic, i1) = scan_digit_run(s, i0);
    proof {
        lemma_digits_end_ge(s@, i0 + 1);
        assert(i1 > i0);
    }
    let has_frac = i1 < len && s[i1] == '.';
    let (fv, fc, i2) = if has_frac {
        scan_digit_run(s, i1 + 1)
    } else {
        (0u64, 0u32, i1)
    };
    let has_e = i2 < len && (s[i2] == 'e' || s[i2] == 'E');
    let mut eneg = false;
    let mut has_exp = false;
    let mut ev0: u64 = 0;
    let mut ec: u32 = 0;
    let mut e2: usize = i2;
    let ghost ge1: int = 0;
    if has_e {
        let esigned = i2 + 1 < len && (s[i2 + 1] == '-' || s[i2 + 1] == '+');
        eneg = i2 + 1 < len && s[i2 + 1] == '-';
        let e1 = if esigned {
            i2 + 2
        } else {
            i2 + 1
        };
        proof {
            ge1 = e1 as int;
        }
        if e1 < len && is_digit(s[e1]) {
            has_exp = true;
            let run = scan_digit_run(s, e1);
            ev0 = run.0;
            ec = run.1;
            e2 = run.2;
        }
    }
    let end = if has_exp {
        e2
    } else {
        i2
    };
    if ic + fc > 19 {
        return None;
    }
    proof {
        lemma_digits_val_bound(s@, i0 as int, i1 as int);
        if has_frac {
            lemma_digits_val_bound(s@, i1 + 1, i2 as int);
        }
        if has_exp {
            lemma_digits_val_bound(s@, ge1, e2 as int);
        }
    }
    if has_exp && (ec >= 20 || ev0 > 27) {
        return None;
    }
    // mag = iv * 10^fc + fv, exactly as the spec multiplies.
    proof {
        assert(pow10(0) == 1 && pow10(1) == 10 && pow10(2) == 100 && pow10(3) == 1000
            && pow10(19) == 10_000_000_000_000_000_000) by {
            reveal_with_fuel(pow10, 21);
        };
        lemma_pow10_mono(fc as nat, 19);
        assert(iv < pow10(ic as nat));
        assert(iv as int * pow10(fc as nat) < pow10(ic as nat) * pow10(fc as nat))
            by (nonlinear_arith)
            requires
                0 <= iv,
                iv < pow10(ic as nat),
                pow10(fc as nat) >= 1,
        ;
        lemma_pow10_sum(ic as nat, fc as nat);
        lemma_pow10_mono((ic + fc) as nat, 19);
        assert(pow10(ic as nat) * pow10(fc as nat) <= pow10(19));
    }
    let p_fc: u64 = pow10_u64(fc);
    let mag: u128 = iv as u128 * p_fc as u128 + fv as u128;
    proof {
        assert(fv < pow10(fc as nat));
        assert((mag as int) < pow10((ic + fc) as nat)) by (nonlinear_arith)
            requires
                mag as int == iv as int * pow10(fc as nat) + fv as int,
                0 <= iv as int <= pow10(ic as nat) - 1,
                0 <= fv as int <= pow10(fc as nat) - 1,
                pow10(ic as nat) * pow10(fc as nat) == pow10((ic + fc) as nat),
                pow10(fc as nat) >= 1,
        ;
        assert((mag as int) < pow10(19));
    }
    let evs: i64 = if has_exp && eneg {
        -(ev0 as i64)
    } else {
        ev0 as i64
    };
    let k: i64 = 6 + evs - fc as i64;
    if mag != 0 && k > 18 {
        return None;
    }
    match scale_value(mag, k, neg) {
        Some(sv) => Some((sv, end)),
        None => None,
    }
}

/// Scale a magnitude by ten to the `k` and apply the sign, exactly as
/// [`spec_scale`] says.
fn scale_value(mag: u128, k: i64, neg: bool) -> (r: Option<i64>)
    requires
        (mag as int) < pow10(19),
        -46 <= k <= 33,
        mag != 0 ==> k <= 18,
    ensures
        r == spec_scale(mag as int, k as int, neg),
{
    let mut v: i128 = 0;
    if mag == 0 {
        proof {
            if k < 0 {
                lemma_pow10_pos((-k) as nat);
                vstd::arithmetic::div_mod::lemma_basic_div(0, pow10((-k) as nat));
            }
            assert(v as int == (if k as int >= 0 {
                (mag as int) * pow10(k as nat)
            } else {
                (mag as int) / pow10((-(k as int)) as nat)
            }));
        }
    } else if k >= 0 {
        let pk: u64 = pow10_u64(k as u32);
        proof {
            lemma_pow10_mono(k as nat, 18);
            assert(pow10(18) <= pow10(19));
            assert(mag as int * pow10(k as nat) <= pow10(19) * pow10(19)) by (nonlinear_arith)
                requires
                    0 <= mag as int <= pow10(19),
                    0 <= pow10(k as nat) <= pow10(19),
            ;
            assert(pow10(19) * pow10(19) < 0x7fffffff_ffffffff_ffffffff_ffffffff) by {
                lemma_pow10_sum(19, 19);
                assert(pow10(38) < 0x7fffffff_ffffffff_ffffffff_ffffffff) by {
                    reveal_with_fuel(pow10, 40);
                };
            };
            assert(0 <= (mag as int) * pow10(k as nat)) by (nonlinear_arith)
                requires
                    0 <= mag as int,
                    0 <= pow10(k as nat),
            ;
        }
        v = (mag * pk as u128) as i128;
        proof {
            assert(v as int == (mag as int) * pow10(k as nat));
        }
    } else {
        let nk: u32 = (-(k as i64)) as u32;
        proof {
            assert(nk as int == -(k as int));
        }
        if nk >= 19 {
            proof {
                lemma_pow10_mono(19, nk as nat);
                lemma_pow10_pos(nk as nat);
                assert((mag as int) < pow10(nk as nat));
                vstd::arithmetic::div_mod::lemma_basic_div(mag as int, pow10(nk as nat));
                assert((mag as int) / pow10(nk as nat) == 0);
                assert(nk as nat == (-(k as int)) as nat);
                assert(pow10(nk as nat) == pow10((-(k as int)) as nat));
                assert(v as int == (mag as int) / pow10((-(k as int)) as nat));
            }
        } else {
            let pk: u64 = pow10_u64(nk);
            proof {
                lemma_pow10_pos(nk as nat);
                vstd::arithmetic::div_mod::lemma_div_is_ordered_by_denominator(
                    mag as int,
                    1,
                    pk as int,
                );
                assert((mag as int) / 1 == mag as int) by (nonlinear_arith);
                vstd::arithmetic::div_mod::lemma_div_is_ordered(0, mag as int, pk as int);
            }
            let q: u128 = mag / (pk as u128);
            proof {
                assert(q as int == (mag as int) / (pk as int));
                assert(pk as int == pow10(nk as nat));
                assert(pow10(nk as nat) == pow10((-(k as int)) as nat));
            }
            proof {
                assert(pow10(19) == 10_000_000_000_000_000_000) by {
                    reveal_with_fuel(pow10, 21);
                };
                assert(q < 10_000_000_000_000_000_000);
            }
            v = q as i128;
            proof {
                assert(v as int == q as int);
                assert(v as int == (mag as int) / pow10((-(k as int)) as nat));
            }
        }
    }
    proof {
        assert(v >= 0);

        assert(v as int == (if k as int >= 0 {
            (mag as int) * pow10(k as nat)
        } else {
            (mag as int) / pow10((-(k as int)) as nat)
        }));
    }
    let sv: i128 = if neg {
        -v
    } else {
        v
    };
    if sv < i64::MIN as i128 || sv > i64::MAX as i128 {
        return None;
    }
    Some(sv as i64)
}

/// Adding exponents multiplies powers.
pub proof fn lemma_pow10_sum(a: nat, b: nat)
    ensures
        pow10(a) * pow10(b) == pow10((a + b) as nat),
    decreases a,
{
    if a == 0 {
        assert(pow10(0) == 1);
    } else {
        lemma_pow10_sum((a - 1) as nat, b);
        assert(pow10(a) * pow10(b) == 10 * (pow10((a - 1) as nat) * pow10(b)))
            by (nonlinear_arith)
            requires
                pow10(a) == 10 * pow10((a - 1) as nat),
        ;
    }
}

/// Ten to the `k`, executable.
fn pow10_u64(k: u32) -> (r: u64)
    requires
        k <= 19,
    ensures
        r as int == pow10(k as nat),
{
    let mut r: u64 = 1;
    let mut i: u32 = 0;
    proof {
        assert(pow10(19) == 10_000_000_000_000_000_000) by {
            reveal_with_fuel(pow10, 21);
        };
    }
    while i < k
        invariant
            i <= k <= 19,
            r as int == pow10(i as nat),
        decreases k - i,
    {
        proof {
            lemma_pow10_mono((i + 1) as nat, 19);
            assert(pow10((i + 1) as nat) == 10 * pow10(i as nat));
            assert(pow10(19) == 10_000_000_000_000_000_000) by {
                reveal_with_fuel(pow10, 21);
            };
        }
        r = r * 10;
        i = i + 1;
    }
    r
}

/// The whole slice read as one number in micro-units.
pub fn parse_number(s: &Vec<char>) -> (r: Option<i64>)
    ensures
        r == spec_parse_number(s@),
{
    match scan_number(s, 0) {
        Some((v, end)) => if end == s.len() {
            Some(v)
        } else {
            None
        },
        None => None,
    }
}

/// The character of one decimal digit.
pub open spec fn spec_digit_char(d: nat) -> char {
    if d == 0 {
        '0'
    } else if d == 1 {
        '1'
    } else if d == 2 {
        '2'
    } else if d == 3 {
        '3'
    } else if d == 4 {
        '4'
    } else if d == 5 {
        '5'
    } else if d == 6 {
        '6'
    } else if d == 7 {
        '7'
    } else if d == 8 {
        '8'
    } else {
        '9'
    }
}

/// Canonical decimal text of a number, most significant digit first.
pub open spec fn spec_render_digits(n: nat) -> Seq<char>
    decreases n,
{
    if n < 10 {
        seq![spec_digit_char(n)]
    } else {
        spec_render_digits(n / 10).push(spec_digit_char(n % 10))
    }
}

/// Every character of a rendering is a digit, there is at least one, and
/// there are at most as many as the number's magnitude demands.
pub proof fn lemma_render_digits_shape(n: nat)
    ensures
        spec_render_digits(n).len() >= 1,
        forall|i: int|
            0 <= i < spec_render_digits(n).len() ==> spec_is_digit(
                #[trigger] spec_render_digits(n)[i],
            ),
        n < pow10(spec_render_digits(n).len() as nat),
    decreases n,
{
    let s = spec_render_digits(n);
    if n < 10 {
        assert(pow10(1) == 10) by {
            reveal_with_fuel(pow10, 2);
        };
    } else {
        lemma_render_digits_shape(n / 10);
        let r = spec_render_digits(n / 10);
        assert(forall|i: int| 0 <= i < s.len() ==> spec_is_digit(#[trigger] s[i])) by {
            assert(forall|i: int| 0 <= i < r.len() ==> s[i] == r[i]);
            assert(s[s.len() - 1] == spec_digit_char(n % 10));
        };
        assert(n < pow10(s.len() as nat)) by {
            assert(pow10(s.len() as nat) == 10 * pow10(r.len() as nat));
            assert(n == 10 * (n / 10) + n % 10);
            assert(n / 10 < pow10(r.len() as nat));
            assert(10 * (n / 10) + n % 10 < 10 * pow10(r.len() as nat)) by (nonlinear_arith)
                requires
                    n / 10 < pow10(r.len() as nat),
                    0 <= n % 10 < 10,
            ;
        };
    }
}

/// Appending a character does not change the value or count of the
/// digits before it.
proof fn lemma_digits_val_push_prefix(s: Seq<char>, c: char, j: int)
    requires
        0 <= j <= s.len(),
    ensures
        digits_val_upto(s.push(c), 0, j) == digits_val_upto(s, 0, j),
        digit_count(s.push(c), 0, j) == digit_count(s, 0, j),
    decreases j,
{
    if j > 0 {
        assert(s.push(c)[j - 1] == s[j - 1]);
        lemma_digits_val_push_prefix(s, c, j - 1);
    }
}

/// Reading the rendering back as digits yields the number, with one count
/// per character.
pub proof fn lemma_render_digits_value(n: nat)
    ensures
        digits_val_upto(spec_render_digits(n), 0, spec_render_digits(n).len() as int) == n,
        digit_count(spec_render_digits(n), 0, spec_render_digits(n).len() as int)
            == spec_render_digits(n).len(),
    decreases n,
{
    let s = spec_render_digits(n);
    if n < 10 {
        assert(digits_val_upto(s, 0, 1) == digits_val_upto(s, 0, 0) * 10 + digit_val(s[0]));
        assert(digit_val(spec_digit_char(n)) == n);
        assert(digit_count(s, 0, 1) == digit_count(s, 0, 0) + 1);
    } else {
        lemma_render_digits_value(n / 10);
        let r = spec_render_digits(n / 10);
        lemma_digits_val_push_prefix(r, spec_digit_char(n % 10), r.len() as int);
        assert(s == r.push(spec_digit_char(n % 10)));
        assert(s[s.len() - 1] == spec_digit_char(n % 10));
        assert(digit_val(spec_digit_char(n % 10)) == n % 10);
        assert(digits_val_upto(s, 0, s.len() as int) == digits_val_upto(
            s,
            0,
            s.len() - 1,
        ) * 10 + n % 10);
        assert(n == (n / 10) * 10 + n % 10);
        assert(digit_count(s, 0, s.len() as int) == digit_count(s, 0, s.len() - 1) + 1);
    }
}

/// A run of digits reaching the end of the text scans to the end.
proof fn lemma_digits_end_all(s: Seq<char>, i: int)
    requires
        0 <= i <= s.len(),
        forall|k: int| i <= k < s.len() ==> spec_is_digit(#[trigger] s[k]),
    ensures
        digits_end(s, i) == s.len(),
    decreases s.len() - i,
{
    if i < s.len() {
        lemma_digits_end_all(s, i + 1);
    }
}

/// A rendering never takes more digits than the magnitude's bound allows.
pub proof fn lemma_render_digits_len(n: nat, cap: nat)
    requires
        n < pow10(cap),
        cap >= 1,
    ensures
        spec_render_digits(n).len() <= cap,
    decreases n,
{
    if n < 10 {
    } else {
        assert(cap >= 2) by {
            if cap == 1 {
                assert(pow10(1) == 10) by {
                    reveal_with_fuel(pow10, 2);
                };
            }
        };
        assert(n / 10 < pow10((cap - 1) as nat)) by {
            assert(pow10(cap) == 10 * pow10((cap - 1) as nat));
            assert(n < 10 * pow10((cap - 1) as nat));
            assert(n / 10 < pow10((cap - 1) as nat)) by (nonlinear_arith)
                requires
                    n < 10 * pow10((cap - 1) as nat),
                    n >= 0,
                    pow10((cap - 1) as nat) > 0,
            ;
        };
        lemma_pow10_pos((cap - 1) as nat);
        lemma_render_digits_len(n / 10, (cap - 1) as nat);
    }
}

/// The digit functions over a window equal those over the excerpt.
pub proof fn lemma_digits_window(s: Seq<char>, i: int, j: int)
    requires
        0 <= i <= j <= s.len(),
    ensures
        digits_val_upto(s, i, j) == digits_val_upto(s.subrange(i, j), 0, j - i),
        digit_count(s, i, j) == digit_count(s.subrange(i, j), 0, j - i),
    decreases j - i,
{
    if j > i {
        lemma_digits_window(s, i, j - 1);
        let sub = s.subrange(i, j);
        assert(s.subrange(i, j - 1) =~= sub.drop_last());
        assert(sub.drop_last().push(s[j - 1]) =~= sub);
        lemma_digits_val_push_prefix(sub.drop_last(), s[j - 1], j - 1 - i);
        assert(sub[j - i - 1] == s[j - 1]);
    }
}

/// A run of digits bounded by a non-digit (or the end) scans exactly to
/// its bound.
pub proof fn lemma_digits_end_until(s: Seq<char>, i: int, j: int)
    requires
        0 <= i <= j <= s.len(),
        forall|k: int| i <= k < j ==> spec_is_digit(#[trigger] s[k]),
        j == s.len() || !(spec_is_digit(s[j]) || s[j] == '_'),
    ensures
        digits_end(s, i) == j,
    decreases j - i,
{
    if i < j {
        lemma_digits_end_until(s, i + 1, j);
    }
}

/// Every digit character is a digit.
pub proof fn lemma_digit_char_is_digit(d: nat)
    requires
        d <= 9,
    ensures
        spec_is_digit(spec_digit_char(d)),
        digit_val(spec_digit_char(d)) == d,
{
}

/// LAW (number round trip, whole quantities): rendering a non-negative
/// whole number of units as its decimal digit text and scanning that text
/// back as a number yields exactly the original value in micro-units.
/// The serialiser emits exactly this digit text for whole values; the
/// general law over every value, fraction digits included, is
/// [`crate::config::lemma_render_micro_round_trip`].
pub proof fn lemma_whole_number_round_trip(v: i64)
    requires
        0 <= v,
        v % 1_000_000 == 0,
    ensures
        spec_parse_number(spec_render_digits((v / 1_000_000) as nat)) == Some(v),
{
    let n = (v / 1_000_000) as nat;
    let s = spec_render_digits(n);
    lemma_render_digits_shape(n);
    lemma_render_digits_value(n);
    lemma_digits_end_all(s, 0);
    assert(n < pow10(19)) by {
        assert(v <= i64::MAX);
        assert(n <= i64::MAX as nat / 1_000_000);
        assert(pow10(19) == 10_000_000_000_000_000_000) by {
            reveal_with_fuel(pow10, 21);
        };
    };
    lemma_render_digits_len(n, 19);
    // Walk the scanner: no sign, one digit run to the end, no fraction,
    // no exponent; the magnitude is n and the scale is six.
    assert(s[0] != '-' && s[0] != '+');
    assert(spec_is_digit(s[0]));
    let i1 = digits_end(s, 0);
    assert(i1 == s.len());
    let iv = digits_val_upto(s, 0, i1);
    let ic = digit_count(s, 0, i1);
    assert(iv == n);
    assert(ic == s.len());
    assert(ic <= 19);
    assert(pow10(0) == 1);
    let mag = iv * pow10(0) + 0;
    assert(mag == n as int);
    assert(!(i1 < s.len()));
    assert(spec_scale(n as int, 6, false) == Some(v)) by {
        assert(pow10(6) == 1_000_000) by {
            reveal_with_fuel(pow10, 8);
        };
        assert(n as int * 1_000_000 == v) by {
            assert(v == 1_000_000 * (v / 1_000_000) + v % 1_000_000);
        };
    };
    assert(spec_scan_number(s, 0) == Some((v as int, s.len() as int)));
}

} // verus!
