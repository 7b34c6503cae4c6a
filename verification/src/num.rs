//! Exact decimal numbers for score values and predicate literals.
//!
//! A `Num` holds `mant / 10^scale`. All arithmetic is exact: addition and
//! subtraction align scales, multiplication adds them, and every operation
//! that could leave the representable range reports failure instead of
//! rounding.

use vstd::prelude::*;

verus! {

/// Largest scale (number of decimal places) a well-formed number carries.
pub const MAX_SCALE: u32 = 18;

/// 10^MAX_SCALE, the largest power of ten a well-formed scale denotes.
pub const POW10_MAX: i64 = 1_000_000_000_000_000_000;

/// A decimal number `mant / 10^scale`.
#[derive(Clone, Copy, Debug, PartialEq, Eq, Structural, Hash)]
pub struct Num {
    pub mant: i64,
    pub scale: u32,
}

/// Result of comparing two decimal numbers by value.
#[derive(Clone, Copy, Debug, PartialEq, Eq, Structural)]
pub enum NumOrd {
    Lt,
    Eq,
    Gt,
}

/// Mathematical 10^e.
pub open spec fn pow10(e: nat) -> int
    decreases e,
{
    if e == 0 {
        1
    } else {
        10 * pow10((e - 1) as nat)
    }
}

pub proof fn lemma_pow10_pos(e: nat)
    ensures
        pow10(e) >= 1,
    decreases e,
{
    if e > 0 {
        lemma_pow10_pos((e - 1) as nat);
    }
}

pub proof fn lemma_pow10_mono(a: nat, b: nat)
    requires
        a <= b,
    ensures
        pow10(a) <= pow10(b),
    decreases b,
{
    if a < b {
        lemma_pow10_mono(a, (b - 1) as nat);
        lemma_pow10_pos((b - 1) as nat);
    }
}

pub proof fn lemma_pow10_max()
    ensures
        pow10(MAX_SCALE as nat) == POW10_MAX as int,
{
    reveal_with_fuel(pow10, 20);
}

impl Num {
    /// Well-formed numbers keep their scale small enough that every
    /// comparison and alignment stays exact in machine arithmetic.
    pub open spec fn wf(self) -> bool {
        self.scale <= MAX_SCALE
    }

    /// The integer this number denotes once brought to scale `s`.
    pub open spec fn scaled(self, s: nat) -> int
        recommends
            self.scale as nat <= s,
    {
        self.mant * pow10((s - self.scale) as nat)
    }

    /// Zero at scale 0, the default for an unset score key.
    pub fn zero() -> (r: Num)
        ensures
            r.mant == 0,
            r.scale == 0,
            r.wf(),
    {
        Num { mant: 0, scale: 0 }
    }

    /// A whole number.
    pub fn from_int(v: i64) -> (r: Num)
        ensures
            r.mant == v,
            r.scale == 0,
            r.wf(),
    {
        Num { mant: v, scale: 0 }
    }
}

/// 10^e as a machine integer.
pub fn pow10_i64(e: u32) -> (r: i64)
    requires
        e <= MAX_SCALE,
    ensures
        r == pow10(e as nat),
        1 <= r <= POW10_MAX,
{
    proof {
        lemma_pow10_max();
        lemma_pow10_mono(e as nat, MAX_SCALE as nat);
        lemma_pow10_pos(e as nat);
    }
    let mut r: i64 = 1;
    let mut i: u32 = 0;
    while i < e
        invariant
            i <= e <= MAX_SCALE,
            r == pow10(i as nat),
        decreases e - i,
    {
        proof {
            lemma_pow10_max();
            lemma_pow10_mono((i + 1) as nat, MAX_SCALE as nat);
            lemma_pow10_pos(i as nat);
        }
        r = r * 10;
        i = i + 1;
    }
    r
}

/// How two well-formed numbers compare by value, as cross-multiplied
/// integers.
pub open spec fn spec_num_cmp(a: Num, b: Num) -> NumOrd {
    let va = a.mant * pow10(b.scale as nat);
    let vb = b.mant * pow10(a.scale as nat);
    if va < vb {
        NumOrd::Lt
    } else if va == vb {
        NumOrd::Eq
    } else {
        NumOrd::Gt
    }
}

/// Compares two numbers by value, exactly.
pub fn num_cmp(a: Num, b: Num) -> (r: NumOrd)
    requires
        a.wf(),
        b.wf(),
    ensures
        r == spec_num_cmp(a, b),
{
    let pa = pow10_i64(b.scale);
    let pb = pow10_i64(a.scale);
    proof {
        lemma_pow10_max();
        lemma_pow10_mono(b.scale as nat, MAX_SCALE as nat);
        lemma_pow10_mono(a.scale as nat, MAX_SCALE as nat);
        assert((a.mant as int) * (pa as int) <= i64::MAX * POW10_MAX && (a.mant as int) * (
        pa as int) >= i64::MIN * POW10_MAX && (b.mant as int) * (pb as int) <= i64::MAX * POW10_MAX
            && (b.mant as int) * (pb as int) >= i64::MIN * POW10_MAX) by (nonlinear_arith)
            requires
                1 <= pa <= POW10_MAX,
                1 <= pb <= POW10_MAX,
                i64::MIN <= a.mant <= i64::MAX,
                i64::MIN <= b.mant <= i64::MAX,
        ;
    }
    let va: i128 = (a.mant as i128) * (pa as i128);
    let vb: i128 = (b.mant as i128) * (pb as i128);
    if va < vb {
        NumOrd::Lt
    } else if va == vb {
        NumOrd::Eq
    } else {
        NumOrd::Gt
    }
}

/// Whether the aligned sum (or difference) of two well-formed numbers is
/// representable.
pub open spec fn sum_fits(a: Num, b: Num, negate_b: bool) -> bool {
    let s = if a.scale >= b.scale {
        a.scale
    } else {
        b.scale
    };
    let v = if negate_b {
        a.scaled(s as nat) - b.scaled(s as nat)
    } else {
        a.scaled(s as nat) + b.scaled(s as nat)
    };
    i64::MIN <= v <= i64::MAX
}

/// The exact aligned sum (or difference), when it is representable.
pub open spec fn spec_num_add_sub(a: Num, b: Num, negate_b: bool) -> Option<Num> {
    let s = if a.scale >= b.scale {
        a.scale
    } else {
        b.scale
    };
    let v = if negate_b {
        a.scaled(s as nat) - b.scaled(s as nat)
    } else {
        a.scaled(s as nat) + b.scaled(s as nat)
    };
    if i64::MIN <= v <= i64::MAX {
        Some(Num { mant: v as i64, scale: s })
    } else {
        None
    }
}

/// Adds (or, with `negate_b`, subtracts) two numbers exactly, aligning
/// their scales; reports `None` when the result does not fit.
pub fn num_add_sub(a: Num, b: Num, negate_b: bool) -> (r: Option<Num>)
    requires
        a.wf(),
        b.wf(),
    ensures
        r == spec_num_add_sub(a, b, negate_b),
        r is Some <==> sum_fits(a, b, negate_b),
        r matches Some(c) ==> {
            let s = if a.scale >= b.scale {
                a.scale
            } else {
                b.scale
            };
            &&& c.wf()
            &&& c.scale == s
            &&& c.mant == if negate_b {
                a.scaled(s as nat) - b.scaled(s as nat)
            } else {
                a.scaled(s as nat) + b.scaled(s as nat)
            }
        },
{
    let s = if a.scale >= b.scale {
        a.scale
    } else {
        b.scale
    };
    let fa = pow10_i64(s - a.scale);
    let fb = pow10_i64(s - b.scale);
    proof {
        lemma_pow10_max();
        assert((a.mant as int) * (fa as int) <= i64::MAX * POW10_MAX && (a.mant as int) * (
        fa as int) >= i64::MIN * POW10_MAX && (b.mant as int) * (fb as int) <= i64::MAX * POW10_MAX
            && (b.mant as int) * (fb as int) >= i64::MIN * POW10_MAX) by (nonlinear_arith)
            requires
                1 <= fa <= POW10_MAX,
                1 <= fb <= POW10_MAX,
                i64::MIN <= a.mant <= i64::MAX,
                i64::MIN <= b.mant <= i64::MAX,
        ;
    }
    let va: i128 = (a.mant as i128) * (fa as i128);
    let vb: i128 = (b.mant as i128) * (fb as i128);
    let v: i128 = if negate_b {
        va - vb
    } else {
        va + vb
    };
    if v >= i64::MIN as i128 && v <= i64::MAX as i128 {
        Some(Num { mant: v as i64, scale: s })
    } else {
        None
    }
}

/// Strips factors of ten from an exact product until it fits a
/// well-formed `Num`, or until no factor is left to strip.
pub open spec fn reduce(m: int, s: nat) -> (int, nat)
    decreases s,
{
    if (s > MAX_SCALE || m > i64::MAX || m < i64::MIN) && s > 0 && m % 10 == 0 {
        reduce(m / 10, (s - 1) as nat)
    } else {
        (m, s)
    }
}

/// Reduction never changes the value denoted: the stripped mantissa,
/// rescaled back, is the original one.
pub proof fn lemma_reduce_value(m: int, s: nat)
    ensures
        reduce(m, s).1 <= s,
        reduce(m, s).0 * pow10((s - reduce(m, s).1) as nat) == m,
    decreases s,
{
    if (s > MAX_SCALE || m > i64::MAX || m < i64::MIN) && s > 0 && m % 10 == 0 {
        lemma_reduce_value(m / 10, (s - 1) as nat);
        let (rm, rs) = reduce(m / 10, (s - 1) as nat);
        assert(m / 10 * 10 == m);
        assert(rm * pow10((s - 1 - rs) as nat) * 10 == rm * (pow10((s - 1 - rs) as nat) * 10))
            by (nonlinear_arith);
        assert(pow10((s - 1 - rs) as nat) * 10 == pow10((s - rs) as nat));
    }
}

/// The exact product of two numbers, reduced; `None` when even the
/// reduced form does not fit a well-formed number.
pub open spec fn spec_num_mul(a: Num, b: Num) -> Option<Num> {
    let r = reduce(a.mant * b.mant, (a.scale + b.scale) as nat);
    if r.1 <= MAX_SCALE && i64::MIN <= r.0 <= i64::MAX {
        Some(Num { mant: r.0 as i64, scale: r.1 as u32 })
    } else {
        None
    }
}

/// Multiplies two numbers exactly; the scales add and trailing decimal
/// zeros are stripped as far as needed to fit the result.
pub fn num_mul(a: Num, b: Num) -> (r: Option<Num>)
    requires
        a.wf(),
        b.wf(),
    ensures
        r == spec_num_mul(a, b),
        r matches Some(c) ==> c.wf(),
{
    proof {
        let g: int = 0x8000_0000_0000_0000;
        assert(-(g * g) <= (a.mant as int) * (b.mant as int) <= g * g) by (nonlinear_arith)
            requires
                -g <= a.mant <= g,
                -g <= b.mant <= g,
        ;
    }
    let mut m: i128 = (a.mant as i128) * (b.mant as i128);
    let mut s: u32 = a.scale + b.scale;
    let ghost m0: int = m as int;
    let ghost s0: nat = s as nat;
    while (s > MAX_SCALE || m > i64::MAX as i128 || m < i64::MIN as i128) && s > 0 && m % 10 == 0
        invariant
            -(0x8000_0000_0000_0000 * 0x8000_0000_0000_0000) <= m <= 0x8000_0000_0000_0000
                * 0x8000_0000_0000_0000,
            reduce(m0, s0) == reduce(m as int, s as nat),
        decreases s,
    {
        m = m / 10;
        s = s - 1;
    }
    if s <= MAX_SCALE && m <= i64::MAX as i128 && m >= i64::MIN as i128 {
        Some(Num { mant: m as i64, scale: s })
    } else {
        None
    }
}

pub open spec fn is_digit(c: char) -> bool {
    '0' as u32 <= c as u32 <= '9' as u32
}

pub open spec fn digit_val(c: char) -> int {
    c as u32 - '0' as u32
}

pub open spec fn is_hex_digit(c: char) -> bool {
    is_digit(c) || 'a' as u32 <= c as u32 <= 'f' as u32 || 'A' as u32 <= c as u32 <= 'F' as u32
}

pub open spec fn hex_digit_val(c: char) -> int {
    if is_digit(c) {
        digit_val(c)
    } else if 'a' as u32 <= c as u32 <= 'f' as u32 {
        c as u32 - 'a' as u32 + 10
    } else {
        c as u32 - 'A' as u32 + 10
    }
}

pub open spec fn all_digits(s: Seq<char>) -> bool {
    forall|i: int| 0 <= i < s.len() ==> is_digit(#[trigger] s[i])
}

pub open spec fn all_hex_digits(s: Seq<char>) -> bool {
    forall|i: int| 0 <= i < s.len() ==> is_hex_digit(#[trigger] s[i])
}

/// The integer a sequence of decimal digits denotes.
pub open spec fn digits_val(s: Seq<char>) -> int
    decreases s.len(),
{
    if s.len() == 0 {
        0
    } else {
        10 * digits_val(s.drop_last()) + digit_val(s.last())
    }
}

/// The integer a sequence of hexadecimal digits denotes.
pub open spec fn hex_val(s: Seq<char>) -> int
    decreases s.len(),
{
    if s.len() == 0 {
        0
    } else {
        16 * hex_val(s.drop_last()) + hex_digit_val(s.last())
    }
}

pub proof fn lemma_digits_val_nonneg(s: Seq<char>)
    requires
        all_digits(s),
    ensures
        digits_val(s) >= 0,
    decreases s.len(),
{
    if s.len() > 0 {
        lemma_digits_val_nonneg(s.drop_last());
    }
}

pub proof fn lemma_hex_val_nonneg(s: Seq<char>)
    requires
        all_hex_digits(s),
    ensures
        hex_val(s) >= 0,
    decreases s.len(),
{
    if s.len() > 0 {
        lemma_hex_val_nonneg(s.drop_last());
    }
}

/// A digit string denotes at least as much as any of its prefixes.
pub proof fn lemma_digits_val_prefix(s: Seq<char>, n: int)
    requires
        all_digits(s),
        0 <= n <= s.len(),
    ensures
        digits_val(s.take(n)) <= digits_val(s),
    decreases s.len() - n,
{
    if n < s.len() {
        lemma_digits_val_prefix(s, n + 1);
        assert(s.take(n + 1).drop_last() =~= s.take(n));
        lemma_digits_val_nonneg(s.take(n));
        assert(digits_val(s.take(n)) <= 10 * digits_val(s.take(n)) + digit_val(s.take(n + 1).last()));
    } else {
        assert(s.take(n) =~= s);
    }
}

pub proof fn lemma_hex_val_prefix(s: Seq<char>, n: int)
    requires
        all_hex_digits(s),
        0 <= n <= s.len(),
    ensures
        hex_val(s.take(n)) <= hex_val(s),
    decreases s.len() - n,
{
    if n < s.len() {
        lemma_hex_val_prefix(s, n + 1);
        assert(s.take(n + 1).drop_last() =~= s.take(n));
        lemma_hex_val_nonneg(s.take(n));
        assert(hex_val(s.take(n)) <= 16 * hex_val(s.take(n)) + hex_digit_val(s.take(n + 1).last()));
    } else {
        assert(s.take(n) =~= s);
    }
}

/// Index of the first `.` in a character sequence.
pub open spec fn find_dot(s: Seq<char>) -> Option<int>
    decreases s.len(),
{
    if s.len() == 0 {
        None
    } else if s[0] == '.' {
        Some(0)
    } else {
        match find_dot(s.skip(1)) {
            None => None,
            Some(j) => Some(j + 1),
        }
    }
}

/// `find_dot` returns exactly the first dot position, if one exists.
pub proof fn lemma_find_dot(s: Seq<char>)
    ensures
        match find_dot(s) {
            None => forall|i: int| 0 <= i < s.len() ==> s[i] != '.',
            Some(j) => 0 <= j < s.len() && s[j] == '.' && forall|i: int| 0 <= i < j ==> s[i] != '.',
        },
    decreases s.len(),
{
    if s.len() > 0 && s[0] != '.' {
        lemma_find_dot(s.skip(1));
        assert(forall|i: int| 1 <= i < s.len() ==> s[i] == s.skip(1)[i - 1]);
    }
}

/// What a numeric literal token denotes: a hexadecimal integer
/// (`0x` prefix), a decimal integer, or a decimal fraction with a single
/// dot, a non-empty integer part, at most `MAX_SCALE` fractional digits,
/// and a mantissa within machine range. Anything else is not a number.
pub open spec fn spec_parse_num(s: Seq<char>) -> Option<Num> {
    if s.len() >= 3 && s[0] == '0' && (s[1] == 'x' || s[1] == 'X') {
        let h = s.skip(2);
        if all_hex_digits(h) && hex_val(h) <= i64::MAX {
            Some(Num { mant: hex_val(h) as i64, scale: 0 })
        } else {
            None
        }
    } else {
        match find_dot(s) {
            None => {
                if s.len() > 0 && all_digits(s) && digits_val(s) <= i64::MAX {
                    Some(Num { mant: digits_val(s) as i64, scale: 0 })
                } else {
                    None
                }
            },
            Some(j) => {
                let ip = s.take(j);
                let fp = s.skip(j + 1);
                if ip.len() > 0 && all_digits(ip) && all_digits(fp) && fp.len() <= MAX_SCALE
                    && digits_val(ip + fp) <= i64::MAX {
                    Some(Num { mant: digits_val(ip + fp) as i64, scale: fp.len() as u32 })
                } else {
                    None
                }
            },
        }
    }
}

/// Parses a numeric literal token, exactly as `spec_parse_num` describes.
#[verifier::loop_isolation(false)]
pub fn parse_num(s: &str) -> (r: Option<Num>)
    ensures
        r == spec_parse_num(s@),
        r matches Some(c) ==> c.wf(),
{
    let n = s.unicode_len();
    if n >= 3 && s.get_char(0) == '0' && (s.get_char(1) == 'x' || s.get_char(1) == 'X') {
        let ghost h = s@.skip(2);
        let mut mant: i64 = 0;
        let mut i: usize = 2;
        while i < n
            invariant
                2 <= i <= n == s@.len(),
                all_hex_digits(s@.subrange(2, i as int)),
                mant == hex_val(s@.subrange(2, i as int)),
                0 <= mant <= i64::MAX,
                h == s@.skip(2),
            decreases n - i,
        {
            let c = s.get_char(i);
            let u = c as u32;
            let d: u32 = if u >= '0' as u32 && u <= '9' as u32 {
                u - '0' as u32
            } else if u >= 'a' as u32 && u <= 'f' as u32 {
                u - 'a' as u32 + 10
            } else if u >= 'A' as u32 && u <= 'F' as u32 {
                u - 'A' as u32 + 10
            } else {
                proof {
                    assert(h[i - 2] == s@[i as int]);
                    assert(!all_hex_digits(h));
                }
                return None;
            };
            proof {
                assert(is_hex_digit(c) && hex_digit_val(c) == d);
                assert(s@.subrange(2, (i + 1) as int).drop_last() =~= s@.subrange(2, i as int));
                assert(s@.subrange(2, (i + 1) as int).last() == s@[i as int]);
            }
            let next: i128 = (mant as i128) * 16 + (d as i128);
            if next > i64::MAX as i128 {
                proof {
                    if all_hex_digits(h) {
                        lemma_hex_val_prefix(h, (i - 1) as int);
                        assert(h.take((i - 1) as int) =~= s@.subrange(2, (i + 1) as int));
                    }
                }
                return None;
            }
            mant = next as i64;
            i += 1;
        }
        proof {
            assert(s@.subrange(2, n as int) =~= s@.skip(2));
        }
        Some(Num { mant, scale: 0 })
    } else {
        let mut mant: i64 = 0;
        let mut scale: u32 = 0;
        let mut dot: usize = 0;
        let mut has_dot = false;
        let mut i: usize = 0;
        while i < n
            invariant
                i <= n == s@.len(),
                0 <= mant <= i64::MAX,
                !(s@.len() >= 3 && s@[0] == '0' && (s@[1] == 'x' || s@[1] == 'X')),
                !has_dot ==> all_digits(s@.take(i as int)) && mant == digits_val(
                    s@.take(i as int),
                ) && scale == 0,
                has_dot ==> {
                    &&& 1 <= dot < i
                    &&& s@[dot as int] == '.'
                    &&& all_digits(s@.take(dot as int))
                    &&& all_digits(s@.subrange(dot as int + 1, i as int))
                    &&& mant == digits_val(
                        s@.take(dot as int) + s@.subrange(dot as int + 1, i as int),
                    )
                    &&& scale == i - dot - 1
                    &&& scale <= MAX_SCALE
                },
            decreases n - i,
        {
            let c = s.get_char(i);
            let u = c as u32;
            proof {
                lemma_find_dot(s@);
                assert(forall|k: int|
                    0 <= k < s@.len() && is_digit(#[trigger] s@[k]) ==> s@[k] != '.');
            }
            if u >= '0' as u32 && u <= '9' as u32 {
                let d = u - '0' as u32;
                proof {
                    assert(is_digit(c) && digit_val(c) == d);
                }
                let next: i128 = (mant as i128) * 10 + (d as i128);
                if next > i64::MAX as i128 {
                    proof {
                        dec_overflow_abort(s@, i as int, dot as int, has_dot, next as int);
                    }
                    return None;
                }
                if has_dot {
                    if scale >= MAX_SCALE {
                        proof {
                            dec_first_dot(s@, dot as int);
                        }
                        return None;
                    }
                    proof {
                        assert((s@.take(dot as int) + s@.subrange(
                            dot as int + 1,
                            i as int + 1,
                        )).drop_last() =~= s@.take(dot as int) + s@.subrange(
                            dot as int + 1,
                            i as int,
                        ));
                        assert((s@.take(dot as int) + s@.subrange(
                            dot as int + 1,
                            i as int + 1,
                        )).last() == s@[i as int]);
                    }
                    scale += 1;
                } else {
                    proof {
                        assert(s@.take(i as int + 1).drop_last() =~= s@.take(i as int));
                        assert(s@.take(i as int + 1).last() == s@[i as int]);
                    }
                }
                mant = next as i64;
            } else if c == '.' {
                if has_dot {
                    proof {
                        dec_first_dot(s@, dot as int);
                        assert(s@.skip(dot as int + 1)[i - dot - 1] == s@[i as int]);
                        assert(!all_digits(s@.skip(dot as int + 1)));
                    }
                    return None;
                }
                if i == 0 {
                    proof {
                        assert(find_dot(s@) == Some(0int));
                        assert(s@.take(0).len() == 0);
                    }
                    return None;
                }
                has_dot = true;
                dot = i;
                proof {
                    assert(s@.subrange(dot as int + 1, i as int + 1).len() == 0);
                    assert(s@.take(dot as int) + s@.subrange(dot as int + 1, i as int + 1)
                        =~= s@.take(dot as int));
                }
            } else {
                proof {
                    dec_bad_char_abort(s@, i as int, dot as int, has_dot);
                }
                return None;
            }
            i += 1;
        }
        if !has_dot {
            if n == 0 {
                return None;
            }
            proof {
                assert(s@.take(n as int) =~= s@);
                lemma_find_dot(s@);
                match find_dot(s@) {
                    Some(j) => {
                        assert(is_digit(s@[j]));
                    },
                    None => {},
                }
            }
            Some(Num { mant, scale: 0 })
        } else {
            proof {
                dec_first_dot(s@, dot as int);
                assert(s@.take(dot as int) + s@.subrange(dot as int + 1, n as int) =~= s@.take(
                    dot as int,
                ) + s@.skip(dot as int + 1));
            }
            Some(Num { mant, scale })
        }
    }
}

/// When every character before `dot` is a digit and `dot` holds a `.`,
/// that dot is the first one.
proof fn dec_first_dot(s: Seq<char>, dot: int)
    requires
        0 <= dot < s.len(),
        s[dot] == '.',
        all_digits(s.take(dot)),
    ensures
        find_dot(s) == Some(dot),
{
    lemma_find_dot(s);
    assert(forall|k: int| 0 <= k < dot ==> s.take(dot)[k] == s[k]);
    assert(forall|k: int| 0 <= k < dot ==> is_digit(#[trigger] s[k]));
    match find_dot(s) {
        Some(j) => {
            if j < dot {
                assert(is_digit(s[j]));
            }
        },
        None => {},
    }
}

/// A character that is neither a digit nor a dot makes the literal
/// unparseable, wherever the scan stands.
proof fn dec_bad_char_abort(s: Seq<char>, i: int, dot: int, has_dot: bool)
    requires
        0 <= i < s.len(),
        !is_digit(s[i]),
        s[i] != '.',
        !(s.len() >= 3 && s[0] == '0' && (s[1] == 'x' || s[1] == 'X')),
        !has_dot ==> all_digits(s.take(i)),
        has_dot ==> 0 <= dot < i && s[dot] == '.' && all_digits(s.take(dot)),
    ensures
        spec_parse_num(s) is None,
{
    lemma_find_dot(s);
    match find_dot(s) {
        None => {
            assert(!all_digits(s));
        },
        Some(j) => {
            if has_dot {
                dec_first_dot(s, dot);
                assert(s.skip(dot + 1)[i - dot - 1] == s[i]);
                assert(!all_digits(s.skip(dot + 1)));
            } else {
                assert(forall|k: int| 0 <= k < i ==> s.take(i)[k] == s[k]);
                assert(j > i);
                assert(s.take(j)[i] == s[i]);
                assert(!all_digits(s.take(j)));
            }
        },
    }
}

/// Once the collected mantissa exceeds the machine range, no extension of
/// the scan can denote a representable number.
proof fn dec_overflow_abort(s: Seq<char>, i: int, dot: int, has_dot: bool, next: int)
    requires
        0 <= i < s.len(),
        is_digit(s[i]),
        next > i64::MAX,
        !(s.len() >= 3 && s[0] == '0' && (s[1] == 'x' || s[1] == 'X')),
        !has_dot ==> all_digits(s.take(i)) && next == 10 * digits_val(s.take(i)) + digit_val(s[i]),
        has_dot ==> {
            &&& 0 <= dot < i
            &&& s[dot] == '.'
            &&& all_digits(s.take(dot))
            &&& all_digits(s.subrange(dot + 1, i))
            &&& next == 10 * digits_val(s.take(dot) + s.subrange(dot + 1, i)) + digit_val(s[i])
        },
    ensures
        spec_parse_num(s) is None,
{
    lemma_find_dot(s);
    match find_dot(s) {
        None => {
            if all_digits(s) {
                assert(s.take(i + 1).drop_last() =~= s.take(i));
                assert(s.take(i + 1).last() == s[i]);
                assert(digits_val(s.take(i + 1)) == next);
                lemma_digits_val_prefix(s, i + 1);
            }
        },
        Some(j) => {
            if has_dot {
                dec_first_dot(s, dot);
                let ip = s.take(dot);
                let fp = s.skip(dot + 1);
                if all_digits(ip) && all_digits(fp) {
                    assert(all_digits(ip + fp)) by {
                        assert(forall|k: int| 0 <= k < dot ==> #[trigger] (ip + fp)[k] == ip[k]);
                        assert(forall|k: int|
                            dot <= k < (ip + fp).len() ==> #[trigger] (ip + fp)[k] == fp[k - dot]);
                        assert(forall|k: int| 0 <= k < ip.len() ==> is_digit(#[trigger] ip[k]));
                        assert(forall|k: int| 0 <= k < fp.len() ==> is_digit(#[trigger] fp[k]));
                    }
                    assert((ip + fp).take(i) =~= ip + s.subrange(dot + 1, i + 1));
                    assert((ip + s.subrange(dot + 1, i + 1)).drop_last() =~= ip + s.subrange(
                        dot + 1,
                        i,
                    ));
                    assert((ip + s.subrange(dot + 1, i + 1)).last() == s[i]);
                    assert(digits_val((ip + fp).take(i)) == next);
                    lemma_digits_val_prefix(ip + fp, i);
                }
            } else {
                assert(forall|k: int| 0 <= k < i ==> s.take(i)[k] == s[k]);
                assert(j > i);
                let ip = s.take(j);
                let fp = s.skip(j + 1);
                if all_digits(ip) && all_digits(fp) {
                    assert(all_digits(ip + fp)) by {
                        assert(forall|k: int| 0 <= k < j ==> #[trigger] (ip + fp)[k] == ip[k]);
                        assert(forall|k: int|
                            j <= k < (ip + fp).len() ==> #[trigger] (ip + fp)[k] == fp[k - j]);
                        assert(forall|k: int| 0 <= k < ip.len() ==> is_digit(#[trigger] ip[k]));
                        assert(forall|k: int| 0 <= k < fp.len() ==> is_digit(#[trigger] fp[k]));
                    }
                    assert((ip + fp).take(i + 1) =~= s.take(i + 1));
                    assert(s.take(i + 1).drop_last() =~= s.take(i));
                    assert(s.take(i + 1).last() == s[i]);
                    assert(digits_val((ip + fp).take(i + 1)) == next);
                    lemma_digits_val_prefix(ip + fp, i + 1);
                }
            }
        },
    }
}

} // verus!
