//! Exact fixed-point prices.
//!
//! A price is held as a whole number of hundred-millionths, so that
//! differences, percentages and truncation to four decimal places are exact.
use vstd::prelude::*;

verus! {

/// Number of units in one whole price unit (eight decimal places).
pub const SCALE: i64 = 100_000_000;

/// Number of units dropped when truncating to four decimal places.
pub const QUANTUM: i64 = 10_000;

/// A signed decimal number with eight fractional digits.
#[derive(Clone, Copy, Debug, PartialEq, Eq, Structural)]
pub struct Decimal {
    /// The value times 10^8.
    pub units: i64,
}

/// Truncation toward zero to a multiple of `QUANTUM` units (four decimal places).
pub open spec fn trunc4(u: int) -> int {
    if u >= 0 {
        (u / QUANTUM as int) * QUANTUM as int
    } else {
        -(((-u) / QUANTUM as int) * QUANTUM as int)
    }
}

/// Truncates toward zero at four decimal digits.
pub fn round_f64(value: Decimal) -> (r: Decimal)
    ensures
        r.units == trunc4(value.units as int),
{
    let u = value.units;
    if u >= 0 {
        Decimal { units: (u / QUANTUM) * QUANTUM }
    } else {
        let m: i64 = if u == i64::MIN { i64::MAX } else { -u };
        proof {
            // i64::MIN and -i64::MAX share the same quotient by QUANTUM.
            assert(u == i64::MIN ==> (m as int) / (QUANTUM as int) == (-u) / (QUANTUM as int));
        }
        Decimal { units: -((m / QUANTUM) * QUANTUM) }
    }
}


/// Reads a decimal text and truncates it toward zero at four decimal digits;
/// `None` when the text is not a decimal number.
pub fn round_f64_str(text: &str) -> (r: Option<Decimal>)
    ensures
        match r {
            Some(d) => exists|u: int| parse_units(text@) == Some(u) && d.units == trunc4(u),
            None => parse_units(text@) is None,
        },
{
    match Decimal::parse(text) {
        Some(d) => Some(round_f64(d)),
        None => None,
    }
}

/// Truncating at four decimal digits twice is the same as truncating once.
pub proof fn lemma_round_idempotent(x: Decimal)
    ensures
        trunc4(trunc4(x.units as int)) == trunc4(x.units as int),
{
    let q = QUANTUM as int;
    let u = x.units as int;
    if u >= 0 {
        assert((u / q) * q >= 0) by (nonlinear_arith)
            requires u >= 0, q > 0;
        assert(((u / q) * q) / q == u / q) by (nonlinear_arith)
            requires q > 0;
    } else {
        assert(((-u) / q) * q >= 0) by (nonlinear_arith)
            requires -u >= 0, q > 0;
        assert((((-u) / q) * q) / q == (-u) / q) by (nonlinear_arith)
            requires q > 0;
    }
}

/// The character of a decimal digit.
pub open spec fn digit_char(d: int) -> char {
    (d + 48) as char
}

/// Decimal digits of a natural number, most significant first, without leading zeros.
pub open spec fn nat_text(n: nat) -> Seq<char>
    decreases n,
{
    if n < 10 {
        seq![digit_char(n as int)]
    } else {
        nat_text(n / 10).push(digit_char((n % 10) as int))
    }
}

/// The last `w` decimal digits of `f`, zero-padded.
pub open spec fn padded_text(f: nat, w: nat) -> Seq<char>
    decreases w,
{
    if w == 0 {
        Seq::empty()
    } else {
        padded_text(f / 10, (w - 1) as nat).push(digit_char((f % 10) as int))
    }
}

/// The `w`-digit fraction `f` without its trailing zeros.
pub open spec fn trimmed_text(f: nat, w: nat) -> Seq<char>
    decreases w,
{
    if w == 0 || f == 0 {
        Seq::empty()
    } else if f % 10 == 0 {
        trimmed_text(f / 10, (w - 1) as nat)
    } else {
        padded_text(f, w)
    }
}

/// Magnitude of an integer.
pub open spec fn abs(u: int) -> nat {
    if u < 0 { (-u) as nat } else { u as nat }
}

/// Shortest plain decimal text of `u / 10^8`: a leading `-` when negative, the
/// whole part, and the fractional digits without trailing zeros (no `.` when
/// there are none).
pub open spec fn units_text(u: int) -> Seq<char> {
    let m = abs(u);
    let sign: Seq<char> = if u < 0 { seq!['-'] } else { Seq::empty() };
    let frac = m % (SCALE as nat);
    let tail: Seq<char> = if frac == 0 { Seq::empty() } else { seq!['.'] + trimmed_text(frac, 8) };
    sign + nat_text(m / (SCALE as nat)) + tail
}

fn digit_str(d: u128) -> (r: &'static str)
    requires
        d < 10,
    ensures
        r@ == seq![digit_char(d as int)],
{
    proof {
        reveal_strlit("0");
        reveal_strlit("1");
        reveal_strlit("2");
        reveal_strlit("3");
        reveal_strlit("4");
        reveal_strlit("5");
        reveal_strlit("6");
        reveal_strlit("7");
        reveal_strlit("8");
        reveal_strlit("9");
    }
    if d == 0 {
        "0"
    } else if d == 1 {
        "1"
    } else if d == 2 {
        "2"
    } else if d == 3 {
        "3"
    } else if d == 4 {
        "4"
    } else if d == 5 {
        "5"
    } else if d == 6 {
        "6"
    } else if d == 7 {
        "7"
    } else if d == 8 {
        "8"
    } else {
        "9"
    }
}

fn push_nat(out: &mut String, n: u128)
    ensures
        final(out)@ == old(out)@ + nat_text(n as nat),
    decreases n,
{
    if n >= 10 {
        push_nat(out, n / 10);
    }
    out.append(digit_str(n % 10));
    proof {
        assert(n < 10 ==> n % 10 == n);
    }
    assert(final(out)@ =~= old(out)@ + nat_text(n as nat));
}

fn push_padded(out: &mut String, f: u128, w: u128)
    ensures
        final(out)@ == old(out)@ + padded_text(f as nat, w as nat),
    decreases w,
{
    if w > 0 {
        push_padded(out, f / 10, w - 1);
        out.append(digit_str(f % 10));
        assert(final(out)@ =~= old(out)@ + padded_text(f as nat, w as nat));
    } else {
        assert(final(out)@ =~= old(out)@ + padded_text(f as nat, w as nat));
    }
}

fn push_trimmed(out: &mut String, f: u128, w: u128)
    ensures
        final(out)@ == old(out)@ + trimmed_text(f as nat, w as nat),
    decreases w,
{
    if w == 0 || f == 0 {
        assert(final(out)@ =~= old(out)@ + trimmed_text(f as nat, w as nat));
    } else if f % 10 == 0 {
        push_trimmed(out, f / 10, w - 1);
    } else {
        push_padded(out, f, w);
    }
}

/// Plain decimal text of a number of units (see `units_text`).
pub fn units_to_text(u: i128) -> (r: String)
    ensures
        r@ == units_text(u as int),
{
    let mut out = String::new();
    let m: u128 = if u < 0 { (-(u + 1)) as u128 + 1 } else { u as u128 };
    assert(m as nat == abs(u as int));
    if u < 0 {
        out.append("-");
        proof { reveal_strlit("-"); }
    }
    push_nat(&mut out, m / (SCALE as u128));
    let frac = m % (SCALE as u128);
    if frac != 0 {
        out.append(".");
        proof { reveal_strlit("."); }
        push_trimmed(&mut out, frac, 8);
    }
    assert(out@ =~= units_text(u as int));
    out
}

/// A decimal digit character.
pub open spec fn is_digit(c: char) -> bool {
    '0' <= c && c <= '9'
}

/// The value of a digit character.
pub open spec fn digit_of(c: char) -> nat {
    ((c as int) - 48) as nat
}

/// Every character is a decimal digit.
pub open spec fn all_digits(s: Seq<char>) -> bool {
    forall|i: int| 0 <= i < s.len() ==> is_digit(#[trigger] s[i])
}

/// The number that a string of digits spells, most significant first.
pub open spec fn digits_value(s: Seq<char>) -> nat
    decreases s.len(),
{
    if s.len() == 0 {
        0
    } else {
        digits_value(s.drop_last()) * 10 + digit_of(s.last())
    }
}

/// The first eight fractional digits, padded on the right with zeros.
pub open spec fn frac8(f: Seq<char>) -> Seq<char> {
    Seq::new(8, |i: int| if i < f.len() { f[i] } else { '0' })
}

/// Units of an unsigned decimal text: whole digits, optionally a `.` and
/// fractional digits, with at least one digit in all; fractional digits past
/// the eighth are dropped.
pub open spec fn body_units(b: Seq<char>) -> Option<nat> {
    if b.contains('.') {
        let i = b.index_of('.');
        let whole = b.take(i);
        let frac = b.skip(i + 1);
        if all_digits(whole) && all_digits(frac) && b.len() > 1 {
            Some(digits_value(whole) * (SCALE as nat) + digits_value(frac8(frac)))
        } else {
            None
        }
    } else if all_digits(b) && b.len() > 0 {
        Some(digits_value(b) * (SCALE as nat))
    } else {
        None
    }
}

/// Units of a decimal text with an optional leading `-` or `+`; `None` when the
/// text is not of that form or its magnitude does not fit in an `i64`.
pub open spec fn parse_units(s: Seq<char>) -> Option<int> {
    let signed = s.len() > 0 && (s[0] == '-' || s[0] == '+');
    let b = if signed { s.skip(1) } else { s };
    match body_units(b) {
        Some(m) => if m <= i64::MAX {
            Some(if s.len() > 0 && s[0] == '-' { -m } else { m as int })
        } else {
            None
        },
        None => None,
    }
}

proof fn lemma_digits_prefix(s: Seq<char>, k: int)
    requires
        0 <= k < s.len(),
    ensures
        digits_value(s.take(k + 1)) == digits_value(s.take(k)) * 10 + digit_of(s[k]),
{
    assert(s.take(k + 1).drop_last() =~= s.take(k));
}

proof fn lemma_digits_prefix_le(s: Seq<char>, k: int)
    requires
        0 <= k <= s.len(),
    ensures
        digits_value(s.take(k)) <= digits_value(s),
    decreases s.len() - k,
{
    if k < s.len() {
        lemma_digits_prefix(s, k);
        lemma_digits_prefix_le(s, k + 1);
    } else {
        assert(s.take(k) =~= s);
    }
}

/// With the first `.` of `b` at `p`, the text splits there.
proof fn lemma_body_first_dot(b: Seq<char>, p: int)
    requires
        0 <= p < b.len(),
        b[p] == '.',
        forall|j: int| 0 <= j < p ==> b[j] != '.',
    ensures
        body_units(b) == (if all_digits(b.take(p)) && all_digits(b.skip(p + 1)) && b.len() > 1 {
            Some(digits_value(b.take(p)) * (SCALE as nat) + digits_value(frac8(b.skip(p + 1))))
        } else {
            None::<nat>
        }),
{
    assert(b.contains('.'));
    let i = b.index_of('.');
    assert(0 <= i < b.len() && b[i] == '.');
    if i != p {
        assert(i > p);
        assert(b.take(i)[p] == '.');
        assert(!all_digits(b.take(i)));
        assert(b.skip(p + 1)[i - p - 1] == '.');
        assert(!all_digits(b.skip(p + 1)));
    }
}

/// Ten to the power `k`.
pub open spec fn pow10(k: nat) -> nat
    decreases k,
{
    if k == 0 { 1 } else { 10 * pow10((k - 1) as nat) }
}

proof fn lemma_digits_bound(s: Seq<char>)
    requires
        all_digits(s),
    ensures
        digits_value(s) < pow10(s.len()),
    decreases s.len(),
{
    if s.len() > 0 {
        assert(is_digit(s[s.len() - 1]));
        lemma_digits_bound(s.drop_last());
    }
}

proof fn lemma_digits_zeros(s: Seq<char>)
    requires
        forall|i: int| 0 <= i < s.len() ==> s[i] == '0',
    ensures
        digits_value(s) == 0,
    decreases s.len(),
{
    if s.len() > 0 {
        lemma_digits_zeros(s.drop_last());
    }
}

proof fn lemma_pow10_8()
    ensures
        pow10(8) == 100_000_000,
{
    assert(pow10(0) == 1);
    assert(pow10(1) == 10);
    assert(pow10(2) == 100);
    assert(pow10(3) == 1000);
    assert(pow10(4) == 10000);
    assert(pow10(5) == 100000);
    assert(pow10(6) == 1000000);
    assert(pow10(7) == 10000000);
}

proof fn lemma_pow10_mono(a: nat, b: nat)
    requires
        a <= b,
    ensures
        pow10(a) <= pow10(b),
    decreases b,
{
    if a < b {
        lemma_pow10_mono(a, (b - 1) as nat);
    }
}

impl Decimal {
    /// Reads a decimal text such as `"100.00"`, `"-2.5"` or `"+7"`.
    ///
    /// Returns `None` exactly when `parse_units` does; fractional digits past
    /// the eighth are dropped.
    pub fn parse(s: &str) -> (r: Option<Decimal>)
        ensures
            match r {
                Some(d) => parse_units(s@) == Some(d.units as int),
                None => parse_units(s@) is None,
            },
    {
        let n = s.unicode_len();
        let mut start: usize = 0;
        let mut neg = false;
        if n > 0 {
            let c0 = s.get_char(0);
            if c0 == '-' {
                neg = true;
                start = 1;
            } else if c0 == '+' {
                start = 1;
            }
        }
        let ghost b = if start == 1 { s@.skip(1) } else { s@ };
        assert(b =~= s@.subrange(start as int, n as int));
        // Find the first '.'.
        let mut dot: usize = n;
        let mut k: usize = start;
        while k < n && dot == n
            invariant
                start <= k <= n,
                start <= dot <= n,
                dot == n ==> forall|j: int| start <= j < k ==> s@[j] != '.',
                dot < n ==> s@[dot as int] == '.' && (forall|j: int| start <= j < dot ==> s@[j] != '.'),
                n == s@.len(),
            decreases n - k,
        {
            if s.get_char(k) == '.' {
                dot = k;
                k = n;
            } else {
                k = k + 1;
            }
        }
        let ghost whole = s@.subrange(start as int, dot as int);
        let ghost frac = if dot < n { s@.subrange(dot + 1, n as int) } else { Seq::<char>::empty() };
        let ghost expected: Option<nat> = if all_digits(whole) && all_digits(frac) && b.len() > (if dot < n { 1int } else { 0 }) {
            Some(digits_value(whole) * (SCALE as nat) + digits_value(frac8(frac)))
        } else {
            None
        };
        proof {
            if dot < n {
                assert(b[dot - start] == '.');
                assert(b.take(dot - start) =~= whole);
                assert(b.skip(dot - start + 1) =~= frac);
                lemma_body_first_dot(b, dot - start);
            } else {
                assert(b =~= whole);
                assert(!b.contains('.'));
                lemma_digits_zeros(frac8(frac));
            }
            assert(body_units(b) == expected);
            assert(b == (if s@.len() > 0 && (s@[0] == '-' || s@[0] == '+') { s@.skip(1) } else { s@ }));
            assert(neg == (s@.len() > 0 && s@[0] == '-'));
            assert(expected is None ==> parse_units(s@) is None);
            if all_digits(whole) && digits_value(whole) >= 92233720369 {
                assert(digits_value(whole) * (SCALE as nat) > i64::MAX);
            }
        }
        // Whole part.
        let mut iv: u64 = 0;
        let mut j: usize = start;
        while j < dot
            invariant
                start <= j <= dot <= n,
                n == s@.len(),
                whole == s@.subrange(start as int, dot as int),
                all_digits(whole.take(j - start)),
                iv as nat == digits_value(whole.take(j - start)),
                iv <= 92233720368,
                !all_digits(whole) ==> parse_units(s@) is None,
                !all_digits(frac) ==> parse_units(s@) is None,
                all_digits(whole) && digits_value(whole) >= 92233720369 ==> parse_units(s@) is None,
            decreases dot - j,
        {
            let c = s.get_char(j);
            if !('0' <= c && c <= '9') {
                proof {
                    assert(whole[j - start] == c);
                    assert(!all_digits(whole));
                }
                return None;
            }
            proof {
                lemma_digits_prefix(whole, j - start);
                assert(whole[j - start] == c);
            }
            iv = iv * 10 + (c as u32 - 48) as u64;
            if iv > 92233720368 {
                proof {
                    if all_digits(whole) {
                        lemma_digits_prefix_le(whole, j - start + 1);
                    }
                }
                return None;
            }
            proof {
                assert forall|i: int| 0 <= i < j + 1 - start implies is_digit(
                    #[trigger] whole.take(j + 1 - start)[i],
                ) by {
                    if i < j - start {
                        assert(whole.take(j + 1 - start)[i] == whole.take(j - start)[i]);
                    }
                }
            }
            j = j + 1;
        }
        assert(whole.take(dot - start) =~= whole);
        // Fractional part.
        let mut fv: u64 = 0;
        if dot < n {
            let mut j: usize = dot + 1;
            while j < n
                invariant
                    dot + 1 <= j <= n,
                    n == s@.len(),
                    frac == s@.subrange(dot + 1, n as int),
                    forall|i: int| 0 <= i < j - dot - 1 ==> is_digit(#[trigger] frac[i]),
                    !all_digits(whole) ==> parse_units(s@) is None,
                    !all_digits(frac) ==> parse_units(s@) is None,
                    all_digits(whole) && digits_value(whole) >= 92233720369 ==> parse_units(s@) is None,
                decreases n - j,
            {
                let c = s.get_char(j);
                if !('0' <= c && c <= '9') {
                    proof {
                        assert(frac[j - dot - 1] == c);
                    }
                    return None;
                }
                assert(frac[j - dot - 1] == c);
                j = j + 1;
            }
            let flen: usize = n - dot - 1;
            let ghost f8 = frac8(frac);
            proof {
                assert(all_digits(f8));
                lemma_pow10_8();
            }
            let mut k: usize = 0;
            while k < 8
                invariant
                    k <= 8,
                    dot < n,
                    n == s@.len(),
                    flen == frac.len(),
                    flen == n - dot - 1,
                    frac == s@.subrange(dot + 1, n as int),
                    f8 == frac8(frac),
                    all_digits(f8),
                    pow10(8) == 100_000_000,
                    fv as nat == digits_value(f8.take(k as int)),
                decreases 8 - k,
            {
                let c = if k < flen { s.get_char(dot + 1 + k) } else { '0' };
                proof {
                    lemma_digits_prefix(f8, k as int);
                    assert(f8[k as int] == c);
                    assert(is_digit(c));
                    assert(all_digits(f8.take(k + 1)));
                    lemma_digits_bound(f8.take(k + 1));
                    lemma_pow10_mono((k + 1) as nat, 8);
                }
                fv = fv * 10 + (c as u32 - 48) as u64;
                k = k + 1;
            }
            assert(f8.take(8) =~= f8);
            proof {
                lemma_digits_bound(f8);
            }
        }
        if (dot == n && n == start) || (dot < n && n - start <= 1) {
            return None;
        }
        let m: u64 = iv * 100_000_000 + fv;
        if m > 9223372036854775807 {
            return None;
        }
        let units: i64 = if neg { -(m as i64) } else { m as i64 };
        Some(Decimal { units })
    }

    /// Plain decimal text of the value, as `units_text` gives it.
    pub fn text(&self) -> (r: String)
        ensures
            r@ == units_text(self.units as int),
    {
        units_to_text(self.units as i128)
    }
}

} // verus!
