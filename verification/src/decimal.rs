//! Fixed-point decimal amounts.
//!
//! Every amount that the wire format carries as a decimal numeral is held
//! as a signed count of micro-units (10^-6 of a unit).  Six fractional
//! digits are enough for the mass conversion factors and the two-digit
//! currency rounding that the order engine performs, and an integer
//! representation keeps every comparison and every rounding step exact.

use vstd::prelude::*;
use vstd::string::StrSliceExecFns;

verus! {

/// Number of micro-units in one whole unit.
pub const MICROS_PER_UNIT: i64 = 1_000_000;

/// Largest magnitude, in micro-units, that a parsed amount may have
/// (one hundred million whole units).
pub const MAX_AMOUNT_MICROS: i64 = 100_000_000_000_000;

/// A signed fixed-point decimal amount: `micros` counts 10^-6 units.
#[derive(Clone, Copy, PartialEq, Eq, Structural, Debug)]
pub struct Decimal {
    pub micros: i64,
}

impl Decimal {
    /// The mathematical value of this amount, in micro-units.
    pub open spec fn val(self) -> int {
        self.micros as int
    }

    /// Amounts produced by the parser stay within this range.
    pub open spec fn in_range(self) -> bool {
        -MAX_AMOUNT_MICROS <= self.micros <= MAX_AMOUNT_MICROS
    }
}

/// 10^k.
pub open spec fn pow10(k: int) -> int
    decreases k,
{
    if k <= 0 {
        1
    } else {
        10 * pow10(k - 1)
    }
}

pub proof fn lemma_pow10_pos(k: int)
    ensures
        pow10(k) >= 1,
    decreases k,
{
    if k > 0 {
        lemma_pow10_pos(k - 1);
    }
}

pub proof fn lemma_pow10_vals()
    ensures
        pow10(0) == 1,
        pow10(1) == 10,
        pow10(2) == 100,
        pow10(3) == 1_000,
        pow10(4) == 10_000,
        pow10(5) == 100_000,
        pow10(6) == 1_000_000,
{
    assert(pow10(0) == 1);
    assert(pow10(1) == 10);
    assert(pow10(2) == 100);
    assert(pow10(3) == 1_000);
    assert(pow10(4) == 10_000);
    assert(pow10(5) == 100_000);
    assert(pow10(6) == 1_000_000);
}

pub open spec fn is_digit_char(c: char) -> bool {
    '0' <= c && c <= '9'
}

/// Numeric value of a decimal digit character.
pub open spec fn digit_of(c: char) -> int {
    c as int - '0' as int
}

pub open spec fn all_digits(s: Seq<char>) -> bool {
    forall|i: int| 0 <= i < s.len() ==> is_digit_char(#[trigger] s[i])
}

/// Value of a string of decimal digits, most significant first.
pub open spec fn digits_val(s: Seq<char>) -> int
    decreases s.len(),
{
    if s.len() == 0 {
        0
    } else {
        digits_val(s.drop_last()) * 10 + digit_of(s.last())
    }
}

pub proof fn lemma_digits_val_nonneg(s: Seq<char>)
    requires
        all_digits(s),
    ensures
        digits_val(s) >= 0,
    decreases s.len(),
{
    if s.len() > 0 {
        lemma_digits_val_nonneg(s.drop_last());
    }
}

pub proof fn lemma_digits_val_bound(s: Seq<char>)
    requires
        all_digits(s),
    ensures
        0 <= digits_val(s) < pow10(s.len() as int),
    decreases s.len(),
{
    if s.len() == 0 {
    } else {
        lemma_digits_val_bound(s.drop_last());
    }
}

/// Extending a digit string to the right never lowers its value.
pub proof fn lemma_digits_val_prefix_le(s: Seq<char>, k: int)
    requires
        all_digits(s),
        0 <= k <= s.len(),
    ensures
        digits_val(s.take(k)) <= digits_val(s),
    decreases s.len() - k,
{
    if k < s.len() {
        lemma_digits_val_prefix_le(s, k + 1);
        assert(s.take(k + 1).drop_last() =~= s.take(k));
        assert(all_digits(s.take(k)));
        lemma_digits_val_nonneg(s.take(k));
        assert(digits_val(s.take(k + 1)) == digits_val(s.take(k)) * 10 + digit_of(s.take(k + 1).last()));
        assert(digit_of(s.take(k + 1).last()) >= 0);
        assert(digits_val(s.take(k)) * 10 >= digits_val(s.take(k)));
    } else {
        assert(s.take(k) =~= s);
    }
}

pub open spec fn has_dot(s: Seq<char>) -> bool {
    exists|i: int| 0 <= i < s.len() && s[i] == '.'
}

/// Index of the first `.` in `s` (meaningful only when `has_dot(s)`).
pub open spec fn first_dot(s: Seq<char>) -> int
    decreases s.len(),
{
    if s.len() == 0 {
        0
    } else if s[0] == '.' {
        0
    } else {
        1 + first_dot(s.drop_first())
    }
}

pub proof fn lemma_first_dot(s: Seq<char>)
    requires
        has_dot(s),
    ensures
        0 <= first_dot(s) < s.len(),
        s[first_dot(s)] == '.',
        forall|j: int| 0 <= j < first_dot(s) ==> s[j] != '.',
    decreases s.len(),
{
    if s[0] == '.' {
    } else {
        assert(has_dot(s.drop_first())) by {
            let i = choose|i: int| 0 <= i < s.len() && s[i] == '.';
            assert(s.drop_first()[i - 1] == '.');
        }
        lemma_first_dot(s.drop_first());
        let d = first_dot(s);
        assert(d == 1 + first_dot(s.drop_first()));
        assert(s[d] == s.drop_first()[d - 1]);
        assert forall|j: int| 0 <= j < d implies s[j] != '.' by {
            if j >= 1 {
                assert(s[j] == s.drop_first()[j - 1]);
                assert(s.drop_first()[j - 1] != '.');
            }
        }
    }
}

pub proof fn lemma_no_dot_before(s: Seq<char>, d: int)
    requires
        0 <= d < s.len(),
        s[d] == '.',
        forall|j: int| 0 <= j < d ==> s[j] != '.',
    ensures
        has_dot(s),
        first_dot(s) == d,
    decreases s.len(),
{
    if s[0] == '.' {
    } else {
        assert(s.drop_first()[d - 1] == '.');
        assert(forall|j: int| 0 <= j < d - 1 ==> #[trigger] s.drop_first()[j] == s[j + 1]);
        lemma_no_dot_before(s.drop_first(), d - 1);
    }
}

/// Value, in micro-units, of an unsigned decimal numeral: digits with at
/// most one dot, at least one digit in all, and at most six fraction
/// digits; `None` where the shape is not that.
pub open spec fn spec_parse_unsigned_micros(s: Seq<char>) -> Option<int> {
    let ip = if has_dot(s) { s.take(first_dot(s)) } else { s };
    let fp = if has_dot(s) { s.skip(first_dot(s) + 1) } else { Seq::<char>::empty() };
    if all_digits(ip) && all_digits(fp) && ip.len() + fp.len() > 0 && fp.len() <= 6 {
        Some(digits_val(ip) * (MICROS_PER_UNIT as int) + digits_val(fp) * pow10(6 - fp.len()))
    } else {
        None
    }
}

/// Value, in micro-units, of a decimal numeral with an optional sign.
pub open spec fn spec_parse_dec_micros(s: Seq<char>) -> Option<int> {
    if s.len() > 0 && (s[0] == '-' || s[0] == '+') {
        match spec_parse_unsigned_micros(s.drop_first()) {
            Some(v) => Some(if s[0] == '-' { -v } else { v }),
            None => None,
        }
    } else {
        spec_parse_unsigned_micros(s)
    }
}

/// The amount a decimal numeral denotes, or `None` where the numeral is
/// malformed or its magnitude exceeds `MAX_AMOUNT_MICROS`.
pub open spec fn spec_parse_dec(s: Seq<char>) -> Option<Decimal> {
    match spec_parse_dec_micros(s) {
        Some(v) => if -MAX_AMOUNT_MICROS <= v <= MAX_AMOUNT_MICROS {
            Some(Decimal { micros: v as i64 })
        } else {
            None
        },
        None => None,
    }
}

proof fn lemma_pow10_add(a: int, b: int)
    requires
        a >= 0,
        b >= 0,
    ensures
        pow10(a) * pow10(b) == pow10(a + b),
    decreases a,
{
    if a == 0 {
        assert(pow10(0) == 1);
    } else {
        lemma_pow10_add(a - 1, b);
        assert(pow10(a) == 10 * pow10(a - 1));
        assert((10 * pow10(a - 1)) * pow10(b) == 10 * (pow10(a - 1) * pow10(b)))
            by (nonlinear_arith);
        assert(pow10(a + b) == 10 * pow10(a - 1 + b));
    }
}

/// A character that is neither a digit nor a dot spoils the numeral.
proof fn lemma_unsigned_none_nondigit(b: Seq<char>, t: int)
    requires
        0 <= t < b.len(),
        b[t] != '.',
        !is_digit_char(b[t]),
    ensures
        spec_parse_unsigned_micros(b) is None,
{
    if has_dot(b) {
        lemma_first_dot(b);
        let d = first_dot(b);
        if t < d {
            assert(b.take(d)[t] == b[t]);
            assert(!all_digits(b.take(d)));
        } else {
            assert(t > d);
            assert(b.skip(d + 1)[t - d - 1] == b[t]);
            assert(!all_digits(b.skip(d + 1)));
        }
    } else {
        assert(!all_digits(b));
    }
}

/// A second dot spoils the numeral.
proof fn lemma_unsigned_none_second_dot(b: Seq<char>, d1: int, d2: int)
    requires
        0 <= d1 < d2 < b.len(),
        b[d1] == '.',
        b[d2] == '.',
        forall|j: int| 0 <= j < d1 ==> b[j] != '.',
    ensures
        spec_parse_unsigned_micros(b) is None,
{
    lemma_no_dot_before(b, d1);
    assert(b.skip(d1 + 1)[d2 - d1 - 1] == b[d2]);
    assert(!is_digit_char('.')) by {
        assert('.' as int == 46);
        assert('0' as int == 48);
    }
    assert(!all_digits(b.skip(d1 + 1)));
}

proof fn lemma_pow10_mono(a: int, b: int)
    requires
        a <= b,
    ensures
        pow10(a) <= pow10(b),
    decreases b - a,
{
    if a < b {
        lemma_pow10_mono(a, b - 1);
        lemma_pow10_pos(b - 1);
        if b > 0 {
            assert(pow10(b) == 10 * pow10(b - 1));
        }
    }
}

/// Exact power of ten for small exponents.
fn pow10_exec(k: usize) -> (r: i64)
    requires
        k <= 6,
    ensures
        r == pow10(k as int),
        1 <= r <= 1_000_000,
{
    proof {
        lemma_pow10_vals();
    }
    if k == 0 {
        1
    } else if k == 1 {
        10
    } else if k == 2 {
        100
    } else if k == 3 {
        1_000
    } else if k == 4 {
        10_000
    } else if k == 5 {
        100_000
    } else {
        1_000_000
    }
}

/// Parses a decimal numeral (optional sign, digits, at most one dot, at
/// most six fraction digits) into micro-units; rejects any other shape
/// and any magnitude beyond `MAX_AMOUNT_MICROS`.
#[verifier::loop_isolation(false)]
#[verifier::rlimit(80)]
pub fn parse_decimal(s: &str) -> (r: Option<Decimal>)
    ensures
        r == spec_parse_dec(s@),
        r matches Some(d) ==> d.in_range(),
{
    let n = s.unicode_len();
    let mut start: usize = 0;
    let mut neg = false;
    if n > 0 {
        let c0 = s.get_char(0);
        if c0 == '-' || c0 == '+' {
            neg = c0 == '-';
            start = 1;
        }
    }
    let ghost body = s@.skip(start as int);
    proof {
        if start == 1 {
            assert(body =~= s@.drop_first());
            assert(spec_parse_dec_micros(s@) == match spec_parse_unsigned_micros(body) {
                Some(v) => Some(if neg { -v } else { v }),
                None => None::<int>,
            });
        } else {
            assert(body =~= s@);
            assert(spec_parse_dec_micros(s@) == spec_parse_unsigned_micros(body));
        }
    }

    // Scan the shape: digits with at most one dot.
    let mut has_d = false;
    let mut dpos: usize = 0;
    let mut j: usize = start;
    while j < n
        invariant
            start <= j <= n,
            has_d ==> start <= dpos < j && s@[dpos as int] == '.',
            forall|t: int| start <= t < j && (!has_d || t != dpos) ==> is_digit_char(#[trigger] s@[t]),
            forall|t: int| start <= t < j && (has_d ==> t < dpos) ==> s@[t] != '.',
        decreases n - j,
    {
        let c = s.get_char(j);
        if c == '.' {
            if has_d {
                proof {
                    lemma_unsigned_none_second_dot(body, dpos - start, j - start);
                }
                return None;
            }
            has_d = true;
            dpos = j;
        } else if c < '0' || c > '9' {
            proof {
                lemma_unsigned_none_nondigit(body, j - start);
            }
            return None;
        }
        j += 1;
    }

    proof {
        if has_d {
            lemma_no_dot_before(body, dpos - start);
        } else {
            assert(!has_dot(body)) by {
                assert(forall|t: int| 0 <= t < body.len() ==> is_digit_char(#[trigger] body[t]));
            }
        }
    }
    let ghost ip = if has_dot(body) { body.take(first_dot(body)) } else { body };
    let ghost fp = if has_dot(body) {
        body.skip(first_dot(body) + 1)
    } else {
        Seq::<char>::empty()
    };
    let ip_end: usize = if has_d { dpos } else { n };
    proof {
        assert(ip =~= s@.subrange(start as int, ip_end as int));
        if has_d {
            assert(fp =~= s@.subrange(dpos as int + 1, n as int));
        }
        assert(all_digits(ip));
        assert(all_digits(fp));
    }

    // No digits at all, or too many fraction digits.
    let digit_count = if has_d { n - start - 1 } else { n - start };
    if digit_count == 0 {
        assert(ip.len() + fp.len() == 0);
        return None;
    }
    let frac_len: usize = if has_d { n - dpos - 1 } else { 0 };
    assert(frac_len == fp.len());
    if frac_len > 6 {
        return None;
    }
    let ghost unsigned_val = digits_val(ip) * (MICROS_PER_UNIT as int) + digits_val(fp) * pow10(
        6 - fp.len() as int,
    );
    proof {
        assert(spec_parse_unsigned_micros(body) == Some(unsigned_val));
        lemma_digits_val_nonneg(fp);
        lemma_pow10_pos(6 - fp.len() as int);
        assert(digits_val(fp) * pow10(6 - fp.len() as int) >= 0) by (nonlinear_arith)
            requires
                digits_val(fp) >= 0,
                pow10(6 - fp.len() as int) >= 1,
        ;
    }

    // Value of the integer part.
    let mut units: i64 = 0;
    let mut t = start;
    while t < ip_end
        invariant
            start <= t <= ip_end,
            units == digits_val(s@.subrange(start as int, t as int)),
            0 <= units <= 100_000_000,
        decreases ip_end - t,
    {
        let c = s.get_char(t);
        proof {
            assert(c == ip[t - start as int]);
            assert(is_digit_char(c));
        }
        let d = (c as u32 - 48) as i64;
        assert(d == digit_of(c));
        let next = units * 10 + d;
        proof {
            assert(s@.subrange(start as int, t as int + 1).drop_last() =~= s@.subrange(
                start as int,
                t as int,
            ));
            assert(next == digits_val(s@.subrange(start as int, t as int + 1)));
        }
        if next > 100_000_000 {
            proof {
                assert(ip.take(t + 1 - start as int) =~= s@.subrange(start as int, t as int + 1));
                lemma_digits_val_prefix_le(ip, t + 1 - start as int);
                assert(digits_val(ip) > 100_000_000);
                assert(digits_val(ip) * (MICROS_PER_UNIT as int) > 100_000_000_000_000)
                    by (nonlinear_arith)
                    requires
                        digits_val(ip) > 100_000_000,
                ;
                assert(unsigned_val > MAX_AMOUNT_MICROS);
            }
            return None;
        }
        units = next;
        t += 1;
    }
    proof {
        assert(s@.subrange(start as int, ip_end as int) =~= ip);
        assert(units == digits_val(ip));
    }

    // Value of the fraction part.
    let mut frac: i64 = 0;
    if has_d {
        let mut u = dpos + 1;
        while u < n
            invariant
                dpos + 1 <= u <= n,
                frac == digits_val(s@.subrange(dpos as int + 1, u as int)),
                0 <= frac < pow10(u as int - (dpos as int + 1)),
            decreases n - u,
        {
            let c = s.get_char(u);
            proof {
                assert(c == fp[u - (dpos as int + 1)]);
                assert(is_digit_char(c));
            }
            let d = (c as u32 - 48) as i64;
            assert(d == digit_of(c));
            proof {
                lemma_pow10_vals();
                assert(u as int - (dpos as int + 1) < 6);
                lemma_pow10_mono(u as int + 1 - (dpos as int + 1), 6);
                assert(s@.subrange(dpos as int + 1, u as int + 1).drop_last() =~= s@.subrange(
                    dpos as int + 1,
                    u as int,
                ));
            }
            frac = frac * 10 + d;
            u += 1;
        }
        proof {
            assert(s@.subrange(dpos as int + 1, n as int) =~= fp);
            assert(frac == digits_val(fp));
        }
    } else {
        assert(frac == digits_val(fp));
    }

    let scale = pow10_exec(6 - frac_len);
    proof {
        lemma_digits_val_bound(fp);
        assert(frac * scale < 1_000_000) by {
            assert(frac * pow10(6 - fp.len() as int) < pow10(fp.len() as int) * pow10(
                6 - fp.len() as int,
            )) by (nonlinear_arith)
                requires
                    0 <= frac < pow10(fp.len() as int),
                    pow10(6 - fp.len() as int) >= 1,
            ;
            lemma_pow10_add(fp.len() as int, 6 - fp.len() as int);
            lemma_pow10_vals();
        }
        assert(frac * scale >= 0) by (nonlinear_arith)
            requires
                frac >= 0,
                scale >= 1,
        ;
    }
    let v = units * 1_000_000 + frac * scale;
    proof {
        assert(v == unsigned_val);
    }
    if v > MAX_AMOUNT_MICROS {
        proof {
            if neg {
                assert(spec_parse_dec_micros(s@) == Some(-unsigned_val));
            } else {
                assert(spec_parse_dec_micros(s@) == Some(unsigned_val));
            }
        }
        return None;
    }
    if neg {
        Some(Decimal { micros: -v })
    } else {
        Some(Decimal { micros: v })
    }
}

/// Count of meaningful fraction digits: the six-digit fraction with its
/// trailing zeros removed (zero for a whole number).
pub open spec fn spec_precision(v: int) -> int {
    let a = if v < 0 { -v } else { v };
    let f = a % 1_000_000;
    if f == 0 {
        0
    } else if f % 100_000 == 0 {
        1
    } else if f % 10_000 == 0 {
        2
    } else if f % 1_000 == 0 {
        3
    } else if f % 100 == 0 {
        4
    } else if f % 10 == 0 {
        5
    } else {
        6
    }
}

impl Decimal {
    /// Number of fraction digits this amount shows when written out.
    pub fn precision(&self) -> (r: u32)
        ensures
            r == spec_precision(self.val()),
            r <= 6,
    {
        let a: u64 = if self.micros < 0 {
            (-(self.micros as i128)) as u64
        } else {
            self.micros as u64
        };
        let f = a % 1_000_000;
        if f == 0 {
            0
        } else if f % 100_000 == 0 {
            1
        } else if f % 10_000 == 0 {
            2
        } else if f % 1_000 == 0 {
            3
        } else if f % 100 == 0 {
            4
        } else if f % 10 == 0 {
            5
        } else {
            6
        }
    }
}

pub open spec fn digit_char(k: int) -> char {
    if k == 0 {
        '0'
    } else if k == 1 {
        '1'
    } else if k == 2 {
        '2'
    } else if k == 3 {
        '3'
    } else if k == 4 {
        '4'
    } else if k == 5 {
        '5'
    } else if k == 6 {
        '6'
    } else if k == 7 {
        '7'
    } else if k == 8 {
        '8'
    } else {
        '9'
    }
}

/// Decimal digits of a non-negative number, most significant first.
pub open spec fn spec_u_digits(n: int) -> Seq<char>
    decreases n,
{
    if n <= 9 {
        seq![digit_char(n)]
    } else {
        spec_u_digits(n / 10).push(digit_char(n % 10))
    }
}

/// `width` digits of `f`, zero padded on the left.
pub open spec fn spec_frac_digits(f: int, width: int) -> Seq<char>
    decreases width,
{
    if width <= 0 {
        Seq::<char>::empty()
    } else {
        spec_frac_digits(f / 10, width - 1).push(digit_char(f % 10))
    }
}

/// How an amount is written out: optional minus sign, whole units, and,
/// where the fraction is not zero, a dot and the fraction digits with
/// their trailing zeros removed.
pub open spec fn spec_dec_str(v: int) -> Seq<char> {
    let a = if v < 0 { -v } else { v };
    let sign: Seq<char> = if v < 0 { seq!['-'] } else { Seq::<char>::empty() };
    let u = a / 1_000_000;
    let f = a % 1_000_000;
    if f == 0 {
        sign + spec_u_digits(u)
    } else {
        let k = spec_precision(v);
        sign + spec_u_digits(u) + seq!['.'] + spec_frac_digits(f / pow10(6 - k), k)
    }
}

fn push_digit(out: &mut String, d: u64)
    requires
        d <= 9,
    ensures
        final(out)@ == old(out)@.push(digit_char(d as int)),
{
    if d == 0 {
        out.append("0");
        proof {
            reveal_strlit("0");
            assert(old(out)@ + ("0")@ =~= old(out)@.push('0'));
        }
    } else if d == 1 {
        out.append("1");
        proof {
            reveal_strlit("1");
            assert(old(out)@ + ("1")@ =~= old(out)@.push('1'));
        }
    } else if d == 2 {
        out.append("2");
        proof {
            reveal_strlit("2");
            assert(old(out)@ + ("2")@ =~= old(out)@.push('2'));
        }
    } else if d == 3 {
        out.append("3");
        proof {
            reveal_strlit("3");
            assert(old(out)@ + ("3")@ =~= old(out)@.push('3'));
        }
    } else if d == 4 {
        out.append("4");
        proof {
            reveal_strlit("4");
            assert(old(out)@ + ("4")@ =~= old(out)@.push('4'));
        }
    } else if d == 5 {
        out.append("5");
        proof {
            reveal_strlit("5");
            assert(old(out)@ + ("5")@ =~= old(out)@.push('5'));
        }
    } else if d == 6 {
        out.append("6");
        proof {
            reveal_strlit("6");
            assert(old(out)@ + ("6")@ =~= old(out)@.push('6'));
        }
    } else if d == 7 {
        out.append("7");
        proof {
            reveal_strlit("7");
            assert(old(out)@ + ("7")@ =~= old(out)@.push('7'));
        }
    } else if d == 8 {
        out.append("8");
        proof {
            reveal_strlit("8");
            assert(old(out)@ + ("8")@ =~= old(out)@.push('8'));
        }
    } else {
        out.append("9");
        proof {
            reveal_strlit("9");
            assert(old(out)@ + ("9")@ =~= old(out)@.push('9'));
        }
    }
}

/// Appends the decimal digits of `n`.
pub fn push_u64(out: &mut String, n: u64)
    ensures
        final(out)@ == old(out)@ + spec_u_digits(n as int),
    decreases n,
{
    if n <= 9 {
        push_digit(out, n);
        assert(old(out)@.push(digit_char(n as int)) =~= old(out)@ + spec_u_digits(n as int));
    } else {
        push_u64(out, n / 10);
        push_digit(out, n % 10);
        assert((old(out)@ + spec_u_digits(n as int / 10)).push(digit_char(n as int % 10))
            =~= old(out)@ + spec_u_digits(n as int));
    }
}

fn push_frac(out: &mut String, f: u64, width: usize)
    requires
        width <= 6,
        f < pow10(width as int),
    ensures
        final(out)@ == old(out)@ + spec_frac_digits(f as int, width as int),
    decreases width,
{
    if width == 0 {
        assert(old(out)@ + spec_frac_digits(f as int, 0) =~= old(out)@);
    } else {
        proof {
            lemma_pow10_vals();
        }
        push_frac(out, f / 10, width - 1);
        push_digit(out, f % 10);
        assert((old(out)@ + spec_frac_digits(f as int / 10, width as int - 1)).push(
            digit_char(f as int % 10),
        ) =~= old(out)@ + spec_frac_digits(f as int, width as int));
    }
}

/// Writes an amount the way the wire format and the user-facing error
/// texts show it.
pub fn dec_to_string(d: &Decimal) -> (r: String)
    ensures
        r@ == spec_dec_str(d.val()),
{
    let a: u64 = if d.micros < 0 {
        (-(d.micros as i128)) as u64
    } else {
        d.micros as u64
    };
    let u = a / 1_000_000;
    let f = a % 1_000_000;
    let mut out = String::new();
    if d.micros < 0 {
        out.append("-");
        proof {
            reveal_strlit("-");
            assert(Seq::<char>::empty() + ("-")@ =~= seq!['-']);
        }
    }
    push_u64(&mut out, u);
    if f == 0 {
        proof {
            if d.micros < 0 {
                assert(out@ =~= spec_dec_str(d.val()));
            } else {
                assert(out@ =~= spec_dec_str(d.val()));
            }
        }
        return out;
    }
    out.append(".");
    let k: usize = if f % 100_000 == 0 {
        1
    } else if f % 10_000 == 0 {
        2
    } else if f % 1_000 == 0 {
        3
    } else if f % 100 == 0 {
        4
    } else if f % 10 == 0 {
        5
    } else {
        6
    };
    assert(k == spec_precision(d.val()));
    let scale = pow10_exec(6 - k);
    let ftrim = f / (scale as u64);
    proof {
        lemma_pow10_vals();
        assert(ftrim < pow10(k as int)) by (nonlinear_arith)
            requires
                f < 1_000_000,
                ftrim == f as int / pow10(6 - k as int),
                pow10(6 - k as int) * pow10(k as int) == 1_000_000,
                pow10(6 - k as int) >= 1,
                pow10(k as int) >= 1,
        {
        }
        reveal_strlit(".");
    }
    push_frac(&mut out, ftrim, k);
    proof {
        let sign: Seq<char> = if d.val() < 0 { seq!['-'] } else { Seq::<char>::empty() };
        assert(out@ =~= sign + spec_u_digits(u as int) + seq!['.'] + spec_frac_digits(
            ftrim as int,
            k as int,
        ));
    }
    out
}

/// Division of `num` by positive `den`, rounded to the nearest integer
/// with ties going away from zero.
pub open spec fn round_div(num: int, den: int) -> int
    recommends
        den > 0,
{
    if num >= 0 {
        (2 * num + den) / (2 * den)
    } else {
        -((2 * (-num) + den) / (2 * den))
    }
}

/// The rounded quotient is off from the exact ratio by at most a half.
pub proof fn lemma_round_div_err(num: int, den: int)
    requires
        den > 0,
    ensures
        -den <= 2 * (round_div(num, den) * den - num) <= den,
{
    if num >= 0 {
        let q = (2 * num + den) / (2 * den);
        let r = (2 * num + den) % (2 * den);
        vstd::arithmetic::div_mod::lemma_fundamental_div_mod(2 * num + den, 2 * den);
        vstd::arithmetic::div_mod::lemma_mod_division_less_than_divisor(2 * num + den, 2 * den);
        assert(2 * (q * den - num) == den - r) by (nonlinear_arith)
            requires
                2 * num + den == 2 * den * q + r,
        {
        }
    } else {
        let m = -num;
        let q = (2 * m + den) / (2 * den);
        let r = (2 * m + den) % (2 * den);
        vstd::arithmetic::div_mod::lemma_fundamental_div_mod(2 * m + den, 2 * den);
        vstd::arithmetic::div_mod::lemma_mod_division_less_than_divisor(2 * m + den, 2 * den);
        assert(2 * (q * den - m) == den - r) by (nonlinear_arith)
            requires
                2 * m + den == 2 * den * q + r,
        {
        }
        assert(round_div(num, den) == -q);
        assert((-q) * den == -(q * den)) by (nonlinear_arith);
        assert(2 * (round_div(num, den) * den - num) == r - den);
    }
}

/// Magnitude cap under which the rounding division cannot overflow.
pub const ROUND_DIV_LIMIT: i128 = 40_000_000_000_000_000_000_000_000_000_000_000_000;

/// Computes `round_div` exactly.
pub fn round_div_i128(num: i128, den: i128) -> (r: i128)
    requires
        0 < den <= ROUND_DIV_LIMIT,
        -ROUND_DIV_LIMIT <= num <= ROUND_DIV_LIMIT,
    ensures
        r == round_div(num as int, den as int),
{
    if num >= 0 {
        let a = num as u128;
        let d = den as u128;
        let q = (2 * a + d) / (2 * d);
        proof {
            vstd::arithmetic::div_mod::lemma_div_is_ordered(
                (2 * a + d) as int,
                (3 * ROUND_DIV_LIMIT) as int,
                (2 * d) as int,
            );
            vstd::arithmetic::div_mod::lemma_div_is_ordered_by_denominator(
                (3 * ROUND_DIV_LIMIT) as int,
                2,
                (2 * d) as int,
            );
        }
        q as i128
    } else {
        let a = (-num) as u128;
        let d = den as u128;
        let q = (2 * a + d) / (2 * d);
        proof {
            vstd::arithmetic::div_mod::lemma_div_is_ordered(
                (2 * a + d) as int,
                (3 * ROUND_DIV_LIMIT) as int,
                (2 * d) as int,
            );
            vstd::arithmetic::div_mod::lemma_div_is_ordered_by_denominator(
                (3 * ROUND_DIV_LIMIT) as int,
                2,
                (2 * d) as int,
            );
        }
        -(q as i128)
    }
}

} // verus!
