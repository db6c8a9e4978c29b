//! Numbers of the scripting language: exact rationals `num / den` with a
//! positive denominator, held in machine integers. An operation whose exact
//! result does not fit, and a division by zero, give no number.
use vstd::prelude::*;
use crate::text::push_char;

verus! {

#[derive(Clone, Copy, Debug, PartialEq, Eq, Structural)]
pub struct Num {
    pub num: i64,
    pub den: i64,
}

pub open spec fn fits(x: int) -> bool {
    i64::MIN <= x <= i64::MAX
}

pub open spec fn make(n: int, d: int) -> Option<Num> {
    if fits(n) && fits(d) {
        Some(Num { num: n as i64, den: d as i64 })
    } else {
        None
    }
}

pub open spec fn spec_add(a: Num, b: Num) -> Option<Num> {
    make(a.num * b.den + b.num * a.den, a.den * b.den)
}

pub open spec fn spec_sub(a: Num, b: Num) -> Option<Num> {
    make(a.num * b.den - b.num * a.den, a.den * b.den)
}

pub open spec fn spec_mul(a: Num, b: Num) -> Option<Num> {
    make(a.num * b.num, a.den * b.den)
}

pub open spec fn spec_div(a: Num, b: Num) -> Option<Num> {
    if b.num == 0 {
        None
    } else if b.num > 0 {
        make(a.num * b.den, a.den * b.num)
    } else {
        make(-(a.num * b.den), -(a.den * b.num))
    }
}

/// Cross products of two numbers, which order them as rationals.
pub open spec fn cross_left(a: Num, b: Num) -> int {
    a.num * b.den
}

pub open spec fn cross_right(a: Num, b: Num) -> int {
    b.num * a.den
}

pub open spec fn digit_char(d: nat) -> char {
    if d == 0 { '0' }
    else if d == 1 { '1' }
    else if d == 2 { '2' }
    else if d == 3 { '3' }
    else if d == 4 { '4' }
    else if d == 5 { '5' }
    else if d == 6 { '6' }
    else if d == 7 { '7' }
    else if d == 8 { '8' }
    else { '9' }
}

/// Decimal digits of a natural number, most significant first.
pub open spec fn nat_digits(n: nat) -> Seq<char>
    decreases n,
{
    if n < 10 {
        seq![digit_char(n)]
    } else {
        nat_digits(n / 10).push(digit_char(n % 10))
    }
}

/// At most `k` digits of the fraction `rem / den` (with `rem < den`), by long
/// division, stopping early when the division comes out exact.
pub open spec fn frac_digits(rem: nat, den: nat, k: nat) -> Seq<char>
    decreases k,
{
    if k == 0 || rem == 0 || den == 0 {
        seq![]
    } else {
        seq![digit_char((rem * 10) / den)] + frac_digits((rem * 10) % den, den, (k - 1) as nat)
    }
}

/// Number of fraction digits that the decimal text of a number shows at most.
pub const FRACTION_DIGITS: u64 = 16;

pub open spec fn abs(x: int) -> nat {
    if x < 0 { (-x) as nat } else { x as nat }
}

/// Denominator used to read a number: every operation here gives a positive
/// one, and a number built by hand with another reads as whole.
pub open spec fn den_of(n: Num) -> nat {
    if n.den > 0 { n.den as nat } else { 1 }
}

/// Decimal text of a number: a sign if negative, the integer part, and, where
/// the number is not whole, a point and up to `FRACTION_DIGITS` digits of the
/// fraction (truncated).
pub open spec fn num_text(n: Num) -> Seq<char> {
    let a = abs(n.num as int);
    let d = den_of(n);
    let sign = if n.num < 0 { seq!['-'] } else { seq![] };
    let int_part = nat_digits(a / d);
    let rem = a % d;
    if rem == 0 {
        sign + int_part
    } else {
        sign + int_part + seq!['.'] + frac_digits(rem, d, FRACTION_DIGITS as nat)
    }
}

pub open spec fn is_digit(c: char) -> bool {
    '0' <= c && c <= '9'
}

pub open spec fn digit_value(c: char) -> nat {
    (c as u32 - '0' as u32) as nat
}

pub open spec fn all_digits(s: Seq<char>) -> bool {
    forall|i: int| 0 <= i < s.len() ==> is_digit(#[trigger] s[i])
}

/// Value of a run of decimal digits.
pub open spec fn digits_value(s: Seq<char>) -> nat
    decreases s.len(),
{
    if s.len() == 0 {
        0
    } else {
        digits_value(s.drop_last()) * 10 + digit_value(s.last())
    }
}

pub open spec fn pow10(k: nat) -> nat
    decreases k,
{
    if k == 0 { 1 } else { 10 * pow10((k - 1) as nat) }
}

/// Longest digit count of a numeric literal that is read.
pub const MAX_LITERAL_DIGITS: usize = 18;

/// A numeric literal: digits, or digits, a point and digits, with at most
/// `MAX_LITERAL_DIGITS` digits in all. Its value is exact.
pub open spec fn parse_literal(s: Seq<char>) -> Option<Num> {
    if s.len() == 0 || s.len() > MAX_LITERAL_DIGITS + 1 {
        None
    } else if all_digits(s) {
        if s.len() <= MAX_LITERAL_DIGITS {
            Some(Num { num: digits_value(s) as i64, den: 1 })
        } else {
            None
        }
    } else if exists|p: int| 0 < p < s.len() - 1 && s[p] == '.' && all_digits(s.take(p)) && all_digits(s.skip(p + 1)) {
        let p = choose|p: int| 0 < p < s.len() - 1 && s[p] == '.' && all_digits(s.take(p)) && all_digits(s.skip(p + 1));
        let whole = s.take(p) + s.skip(p + 1);
        Some(Num { num: digits_value(whole) as i64, den: pow10((s.len() - p - 1) as nat) as i64 })
    } else {
        None
    }
}

pub proof fn lemma_digits_bound(s: Seq<char>)
    requires
        all_digits(s),
    ensures
        digits_value(s) < pow10(s.len()),
    decreases s.len(),
{
    if s.len() > 0 {
        let t = s.drop_last();
        assert(all_digits(t)) by {
            assert forall|i: int| 0 <= i < t.len() implies is_digit(#[trigger] t[i]) by {
                assert(t[i] == s[i]);
            }
        }
        lemma_digits_bound(t);
        assert(is_digit(s[s.len() - 1]));
        assert(digit_value(s.last()) < 10);
        assert(digits_value(t) + 1 <= pow10(t.len()));
        assert(digits_value(s) == digits_value(t) * 10 + digit_value(s.last()));
        assert(digits_value(t) * 10 + 10 <= pow10(t.len()) * 10) by (nonlinear_arith)
            requires digits_value(t) + 1 <= pow10(t.len());
    }
}

pub proof fn lemma_pow10_bound(k: nat)
    requires
        k <= 19,
    ensures
        1 <= pow10(k) <= pow10(k as nat) <= 10_000_000_000_000_000_000,
        k <= 18 ==> pow10(k) <= 1_000_000_000_000_000_000,
        k <= 17 ==> pow10(k) <= 100_000_000_000_000_000,
{
    lemma_pow10_pos(k);
    lemma_pow10_mono(k, 19);
    if k <= 18 { lemma_pow10_mono(k, 18); }
    if k <= 17 { lemma_pow10_mono(k, 17); }
    reveal_with_fuel(pow10, 20);
}

proof fn lemma_pow10_mono(a: nat, b: nat)
    requires
        a <= b,
    ensures
        pow10(a) <= pow10(b),
    decreases b,
{
    if a < b {
        lemma_pow10_mono(a, (b - 1) as nat);
        lemma_pow10_pos((b - 1) as nat);
    }
}

proof fn lemma_pow10_pos(a: nat)
    ensures
        pow10(a) >= 1,
    decreases a,
{
    if a > 0 {
        lemma_pow10_pos((a - 1) as nat);
    }
}

/// Every literal that reads as a number reads as a valid one.
pub proof fn lemma_literal_valid(s: Seq<char>)
    ensures
        parse_literal(s) matches Some(n) ==> n.wf(),
{
    if parse_literal(s) is Some && !all_digits(s) {
        let p = choose|p: int| 0 < p < s.len() - 1 && s[p] == '.' && all_digits(s.take(p)) && all_digits(s.skip(p + 1));
        lemma_pow10_bound((s.len() - p - 1) as nat);
    }
}

/// Every operation on valid numbers that gives a number gives a valid one.
pub proof fn lemma_ops_keep_valid(a: Num, b: Num)
    requires
        a.wf(),
        b.wf(),
    ensures
        spec_add(a, b) matches Some(n) ==> n.wf(),
        spec_sub(a, b) matches Some(n) ==> n.wf(),
        spec_mul(a, b) matches Some(n) ==> n.wf(),
        spec_div(a, b) matches Some(n) ==> n.wf(),
{
    assert(a.den * b.den > 0) by (nonlinear_arith)
        requires a.den > 0, b.den > 0;
    assert(b.num > 0 ==> a.den * b.num > 0) by (nonlinear_arith)
        requires a.den > 0;
    assert(b.num < 0 ==> -(a.den * b.num) > 0) by (nonlinear_arith)
        requires a.den > 0;
}

impl Num {
    /// A valid number has a positive denominator; the cross products then
    /// order numbers as the rationals they stand for.
    pub open spec fn wf(self) -> bool {
        self.den > 0
    }

    /// The whole number `n`.
    pub fn integer(n: i64) -> (r: Num)
        ensures
            r == (Num { num: n, den: 1 }),
            r.wf(),
    {
        Num { num: n, den: 1 }
    }

    /// A character count as a number.
    pub fn from_count(n: usize) -> (r: Option<Num>)
        ensures
            r == make(n as int, 1),
            r matches Some(m) ==> m.wf(),
    {
        if n as u64 <= i64::MAX as u64 {
            Some(Num { num: n as i64, den: 1 })
        } else {
            None
        }
    }

    pub fn is_zero(&self) -> (r: bool)
        ensures
            r == (self.num == 0),
    {
        self.num == 0
    }

    /// The exact product of two `i64` as an `i128`.
    fn wide_mul(a: i64, b: i64) -> (r: i128)
        ensures
            r == a as int * b as int,
            -0x4000_0000_0000_0000_0000_0000_0000_0000 <= r <= 0x4000_0000_0000_0000_0000_0000_0000_0000,
            b > 0 ==> -0x4000_0000_0000_0000_0000_0000_0000_0000 < r < 0x4000_0000_0000_0000_0000_0000_0000_0000,
    {
        let x = a as i128;
        let y = b as i128;
        assert(y > 0 ==> -0x4000_0000_0000_0000_0000_0000_0000_0000 < x * y < 0x4000_0000_0000_0000_0000_0000_0000_0000)
            by (nonlinear_arith)
            requires
                -0x8000_0000_0000_0000 <= x <= 0x7fff_ffff_ffff_ffff,
                -0x8000_0000_0000_0000 <= y <= 0x7fff_ffff_ffff_ffff,
        ;
        assert(-0x4000_0000_0000_0000_0000_0000_0000_0000 <= x * y <= 0x4000_0000_0000_0000_0000_0000_0000_0000)
            by (nonlinear_arith)
            requires
                -0x8000_0000_0000_0000 <= x <= 0x7fff_ffff_ffff_ffff,
                -0x8000_0000_0000_0000 <= y <= 0x7fff_ffff_ffff_ffff,
        ;
        x * y
    }

    fn narrow(n: i128, d: i128) -> (r: Option<Num>)
        ensures
            r == make(n as int, d as int),
    {
        if i64::MIN as i128 <= n && n <= i64::MAX as i128 && i64::MIN as i128 <= d && d <= i64::MAX as i128 {
            Some(Num { num: n as i64, den: d as i64 })
        } else {
            None
        }
    }

    pub fn add(&self, o: &Num) -> (r: Option<Num>)
        ensures
            r == spec_add(*self, *o),
            self.wf() && o.wf() ==> (r matches Some(n) ==> n.wf()),
    {
        proof {
            if self.wf() && o.wf() {
                lemma_ops_keep_valid(*self, *o);
            }
        }
        match Self::wide_mul(self.num, o.den).checked_add(Self::wide_mul(o.num, self.den)) {
            Some(n) => Self::narrow(n, Self::wide_mul(self.den, o.den)),
            None => None,
        }
    }

    pub fn sub(&self, o: &Num) -> (r: Option<Num>)
        ensures
            r == spec_sub(*self, *o),
            self.wf() && o.wf() ==> (r matches Some(n) ==> n.wf()),
    {
        proof {
            if self.wf() && o.wf() {
                lemma_ops_keep_valid(*self, *o);
            }
        }
        match Self::wide_mul(self.num, o.den).checked_sub(Self::wide_mul(o.num, self.den)) {
            Some(n) => Self::narrow(n, Self::wide_mul(self.den, o.den)),
            None => None,
        }
    }

    pub fn mul(&self, o: &Num) -> (r: Option<Num>)
        ensures
            r == spec_mul(*self, *o),
            self.wf() && o.wf() ==> (r matches Some(n) ==> n.wf()),
    {
        proof {
            if self.wf() && o.wf() {
                lemma_ops_keep_valid(*self, *o);
            }
        }
        Self::narrow(Self::wide_mul(self.num, o.num), Self::wide_mul(self.den, o.den))
    }

    pub fn div(&self, o: &Num) -> (r: Option<Num>)
        ensures
            r == spec_div(*self, *o),
            self.wf() && o.wf() ==> (r matches Some(n) ==> n.wf()),
    {
        proof {
            if self.wf() && o.wf() {
                lemma_ops_keep_valid(*self, *o);
            }
        }
        if o.num == 0 {
            None
        } else if o.num > 0 {
            Self::narrow(Self::wide_mul(self.num, o.den), Self::wide_mul(self.den, o.num))
        } else {
            let n = Self::wide_mul(self.num, o.den);
            let d = Self::wide_mul(self.den, o.num);
            Self::narrow(-n, -d)
        }
    }

    /// The two cross products `self.num * o.den` and `o.num * self.den`.
    pub fn cross(&self, o: &Num) -> (r: (i128, i128))
        ensures
            r.0 == cross_left(*self, *o),
            r.1 == cross_right(*self, *o),
    {
        (Self::wide_mul(self.num, o.den), Self::wide_mul(o.num, self.den))
    }

    /// Whether two numbers are the same rational (denominators positive).
    pub fn same_value(&self, o: &Num) -> (r: bool)
        ensures
            r == (cross_left(*self, *o) == cross_right(*self, *o)),
    {
        let (l, r) = self.cross(o);
        l == r
    }

    /// Decimal text of the number.
    pub fn to_text(&self) -> (r: String)
        ensures
            r@ == num_text(*self),
    {
        let mut out = String::new();
        let a: u64 = if self.num < 0 {
            (-(self.num as i128)) as u64
        } else {
            self.num as u64
        };
        let d: u64 = if self.den > 0 { self.den as u64 } else { 1 };
        assert(a == abs(self.num as int));
        if self.num < 0 {
            push_char(&mut out, '-');
        }
        push_digits(a / d, &mut out);
        let rem0: u64 = a % d;
        if rem0 != 0 {
            push_char(&mut out, '.');
            let ghost prefix = out@;
            let mut rem: u128 = rem0 as u128;
            let mut k: u64 = FRACTION_DIGITS;
            while k > 0 && rem != 0
                invariant
                    d > 0,
                    rem < d,
                    prefix + frac_digits(rem0 as nat, d as nat, FRACTION_DIGITS as nat)
                        == out@ + frac_digits(rem as nat, d as nat, k as nat),
                decreases k,
            {
                let q = rem * 10 / (d as u128);
                let nr = rem * 10 % (d as u128);
                assert(q < 10) by (nonlinear_arith)
                    requires rem < d, q == (rem * 10) / (d as int), d > 0;
                push_char(&mut out, digit_of(q as u64));
                assert(frac_digits(rem as nat, d as nat, k as nat) == seq![digit_char(q as nat)]
                    + frac_digits(nr as nat, d as nat, (k - 1) as nat));
                assert(out@ + frac_digits(nr as nat, d as nat, (k - 1) as nat)
                    =~= prefix + frac_digits(rem0 as nat, d as nat, FRACTION_DIGITS as nat));
                rem = nr;
                k = k - 1;
            }
            assert(frac_digits(rem as nat, d as nat, k as nat) == Seq::<char>::empty());
            assert(out@ =~= prefix + frac_digits(rem0 as nat, d as nat, FRACTION_DIGITS as nat));
        }
        assert(out@ =~= num_text(*self));
        out
    }

    /// Reads a numeric literal (see `parse_literal`).
    pub fn parse(s: &str) -> (r: Option<Num>)
        ensures
            r == parse_literal(s@),
            r matches Some(n) ==> n.wf(),
    {
        let cs = crate::text::chars_of(s);
        let len = cs.len();
        if len == 0 || len > MAX_LITERAL_DIGITS + 1 {
            return None;
        }
        let mut value: u64 = 0;
        let mut den: u64 = 1;
        let mut point: usize = len;
        let mut i: usize = 0;
        let ghost mut whole: Seq<char> = seq![];
        while i < len
            invariant
                len == cs@.len(),
                cs@ == s@,
                0 < len <= MAX_LITERAL_DIGITS + 1,
                i <= len,
                point == len || (0 < point < i && point < len - 1 && cs@[point as int] == '.'),
                point == len ==> all_digits(cs@.take(i as int)) && whole == cs@.take(i as int),
                point < len ==> all_digits(cs@.take(point as int)) && all_digits(cs@.subrange(point + 1, i as int))
                    && whole == cs@.take(point as int) + cs@.subrange(point + 1, i as int)
                    && den == pow10((i - point - 1) as nat)
                    && whole.len() < i,
                point == len ==> den == 1,
                whole.len() <= i,
                all_digits(whole),
                value == digits_value(whole),
            decreases len - i,
        {
            let c = cs[i];
            if '0' <= c && c <= '9' {
                let dv = (c as u32 - '0' as u32) as u64;
                let ghost w2 = whole.push(c);
                assert(w2.drop_last() =~= whole);
                assert(all_digits(w2)) by {
                    assert forall|j: int| 0 <= j < w2.len() implies is_digit(#[trigger] w2[j]) by {
                        if j < whole.len() { assert(w2[j] == whole[j]); }
                    }
                }
                proof {
                    lemma_digits_bound(w2);
                    lemma_pow10_bound(w2.len());
                }
                value = value * 10 + dv;
                proof {
                    whole = w2;
                }
                if point < len {
                    proof {
                        lemma_pow10_bound((i - point) as nat);
                    }
                    den = den * 10;
                    assert(cs@.subrange(point + 1, i + 1) =~= cs@.subrange(point + 1, i as int).push(c));
                    assert(all_digits(cs@.subrange(point + 1, i + 1))) by {
                        let t = cs@.subrange(point + 1, i + 1);
                        assert forall|j: int| 0 <= j < t.len() implies is_digit(#[trigger] t[j]) by {
                            if j < t.len() - 1 { assert(t[j] == cs@.subrange(point + 1, i as int)[j]); }
                        }
                    }
                    assert(whole =~= cs@.take(point as int) + cs@.subrange(point + 1, i + 1));
                    assert(den == pow10((i + 1 - point - 1) as nat));
                } else {
                    assert(cs@.take(i + 1) =~= cs@.take(i as int).push(c));
                    assert(whole =~= cs@.take(i + 1));
                }
            } else if c == '.' && point == len && i > 0 && i + 1 < len {
                point = i;
                assert(cs@.subrange(point + 1, i + 1) =~= Seq::<char>::empty());
                assert(whole =~= cs@.take(point as int) + cs@.subrange(point + 1, i + 1));
            } else {
                proof {
                    lemma_not_literal(cs@, i as int, point as int);
                }
                return None;
            }
            i = i + 1;
        }
        if point == len && len > MAX_LITERAL_DIGITS {
            assert(cs@.take(len as int) =~= cs@);
            return None;
        }
        proof {
            lemma_literal_found(cs@, point as int, whole);
            lemma_digits_bound(whole);
            lemma_pow10_bound(whole.len());
            if point < len {
                lemma_pow10_bound((len - point - 1) as nat);
            }
        }
        Some(Num { num: value as i64, den: den as i64 })
    }
}

proof fn lemma_not_literal(s: Seq<char>, i: int, point: int)
    requires
        0 <= i < s.len(),
        point == s.len() || (0 <= point < i && s[point] == '.'),
        !is_digit(s[i]),
        !(s[i] == '.' && point == s.len() && i > 0 && i + 1 < s.len()),
    ensures
        parse_literal(s) is None,
{
    assert(!all_digits(s));
    assert forall|p: int| 0 < p < s.len() - 1 && s[p] == '.' && all_digits(s.take(p)) implies !all_digits(s.skip(p + 1)) by {
        if p < i {
            assert(s.skip(p + 1)[i - p - 1] == s[i]);
            if s[i] == '.' {
                assert(!is_digit(s.skip(p + 1)[i - p - 1]));
            }
        } else if p > i {
            assert(s.take(p)[i] == s[i]);
        } else {
            if point < s.len() {
                assert(s.take(p)[point] == s[point]);
            }
        }
    }
}

proof fn lemma_literal_found(s: Seq<char>, point: int, whole: Seq<char>)
    requires
        0 < s.len() <= MAX_LITERAL_DIGITS + 1,
        point == s.len() || (0 < point < s.len() - 1 && s[point] == '.'),
        point == s.len() ==> all_digits(s.take(s.len() as int)) && whole == s.take(s.len() as int),
        point < s.len() ==> all_digits(s.take(point)) && all_digits(s.subrange(point + 1, s.len() as int))
            && whole == s.take(point) + s.subrange(point + 1, s.len() as int),
        whole.len() <= MAX_LITERAL_DIGITS,
    ensures
        parse_literal(s) == (if point == s.len() {
            Some(Num { num: digits_value(whole) as i64, den: 1 })
        } else {
            Some(Num { num: digits_value(whole) as i64, den: pow10((s.len() - point - 1) as nat) as i64 })
        }),
{
    assert(s.take(s.len() as int) =~= s);
    if point < s.len() {
        assert(s.skip(point + 1) =~= s.subrange(point + 1, s.len() as int));
        assert(!is_digit(s[point]));
        assert(!all_digits(s));
        let q = choose|p: int| 0 < p < s.len() - 1 && s[p] == '.' && all_digits(s.take(p)) && all_digits(s.skip(p + 1));
        if q < point {
            assert(s.skip(q + 1)[point - q - 1] == s[point]);
        } else if q > point {
            assert(s.take(q)[point] == s[point]);
        }
    }
}

/// Appends the decimal digits of `n`.
fn push_digits(n: u64, out: &mut String)
    ensures
        final(out)@ == old(out)@ + nat_digits(n as nat),
    decreases n,
{
    if n >= 10 {
        push_digits(n / 10, out);
    }
    push_char(out, digit_of(n % 10));
    assert(final(out)@ =~= old(out)@ + nat_digits(n as nat));
}

fn digit_of(d: u64) -> (c: char)
    requires
        d < 10,
    ensures
        c == digit_char(d as nat),
{
    if d == 0 { '0' }
    else if d == 1 { '1' }
    else if d == 2 { '2' }
    else if d == 3 { '3' }
    else if d == 4 { '4' }
    else if d == 5 { '5' }
    else if d == 6 { '6' }
    else if d == 7 { '7' }
    else if d == 8 { '8' }
    else { '9' }
}

} // verus!
