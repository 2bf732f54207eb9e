//! Decimal text for fixed-point values: rendering integers and
//! `1e5`-scaled numbers, and parsing them back.  Rendering then parsing
//! a value yields the value again.

use vstd::prelude::*;

use crate::fixed::{pow10, pow10_i64, SCALE_E5};

verus! {

/// The character of one decimal digit.
pub open spec fn digit_char(d: int) -> char {
    if d == 0 {
        '0'
    } else if d == 1 {
        '1'
    } else if d == 2 {
        '2'
    } else if d == 3 {
        '3'
    } else if d == 4 {
        '4'
    } else if d == 5 {
        '5'
    } else if d == 6 {
        '6'
    } else if d == 7 {
        '7'
    } else if d == 8 {
        '8'
    } else {
        '9'
    }
}

/// The value of one decimal digit character.
pub open spec fn char_digit(c: char) -> int {
    if c == '0' {
        0
    } else if c == '1' {
        1
    } else if c == '2' {
        2
    } else if c == '3' {
        3
    } else if c == '4' {
        4
    } else if c == '5' {
        5
    } else if c == '6' {
        6
    } else if c == '7' {
        7
    } else if c == '8' {
        8
    } else {
        9
    }
}

/// Whether a character is a decimal digit.
pub open spec fn is_digit(c: char) -> bool {
    c == '0' || c == '1' || c == '2' || c == '3' || c == '4' || c == '5' || c == '6' || c == '7'
        || c == '8' || c == '9'
}

/// The decimal rendering of a natural number, most significant digit
/// first, without leading zeros (except for zero itself).
pub open spec fn nat_digits(n: nat) -> Seq<char>
    decreases n,
{
    if n < 10 {
        seq![digit_char(n as int)]
    } else {
        nat_digits(n / 10).push(digit_char((n % 10) as int))
    }
}

/// The number a digit sequence denotes.
pub open spec fn seq_to_nat(s: Seq<char>) -> nat
    decreases s.len(),
{
    if s.len() == 0 {
        0
    } else {
        seq_to_nat(s.take(s.len() - 1)) * 10 + char_digit(s.last()) as nat
    }
}

/// Every character of a rendering is a digit, and the rendering denotes
/// the number it was made from.
pub proof fn lemma_nat_digits_value(n: nat)
    ensures
        nat_digits(n).len() >= 1,
        forall|i: int| 0 <= i < nat_digits(n).len() ==> is_digit(#[trigger] nat_digits(n)[i]),
        seq_to_nat(nat_digits(n)) == n,
    decreases n,
{
    if n < 10 {
        let s = nat_digits(n);
        assert(s.take(s.len() - 1) =~= Seq::<char>::empty());
        assert(seq_to_nat(Seq::<char>::empty()) == 0);
        lemma_char_digit_inverse(n as int);
    } else {
        lemma_nat_digits_value(n / 10);
        let hd = nat_digits(n / 10);
        let s = nat_digits(n);
        assert(s.take(s.len() - 1) =~= hd);
        lemma_char_digit_inverse((n % 10) as int);
    }
}

/// Reading back the character of a digit yields the digit.
pub proof fn lemma_char_digit_inverse(d: int)
    requires
        0 <= d < 10,
    ensures
        char_digit(digit_char(d)) == d,
        is_digit(digit_char(d)),
{
}

/// Digit strings of the ten digits.
fn digit_str(d: u64) -> (r: &'static str)
    requires
        d < 10,
    ensures
        r@ =~= seq![digit_char(d as int)],
        r@.len() == 1,
{
    let s: &'static str = if d == 0 {
        "0"
    } else if d == 1 {
        "1"
    } else if d == 2 {
        "2"
    } else if d == 3 {
        "3"
    } else if d == 4 {
        "4"
    } else if d == 5 {
        "5"
    } else if d == 6 {
        "6"
    } else if d == 7 {
        "7"
    } else if d == 8 {
        "8"
    } else {
        "9"
    };
    proof {
        reveal_strlit("0");
        reveal_strlit("1");
        reveal_strlit("2");
        reveal_strlit("3");
        reveal_strlit("4");
        reveal_strlit("5");
        reveal_strlit("6");
        reveal_strlit("7");
        reveal_strlit("8");
        reveal_strlit("9");
    }
    s
}

/// Renders a natural number in decimal.
pub fn format_u64(n: u64) -> (r: String)
    ensures
        r@ == nat_digits(n as nat),
    decreases n,
{
    if n < 10 {
        digit_str(n).to_owned()
    } else {
        let mut s = format_u64(n / 10);
        s.append(digit_str(n % 10));
        proof {
            assert(s@ =~= nat_digits(n as nat));
        }
        s
    }
}

/// A digit prefix never denotes more than the whole string.
pub proof fn lemma_seq_to_nat_prefix_le(s: Seq<char>, k: int)
    requires
        0 <= k <= s.len(),
    ensures
        seq_to_nat(s.take(k)) <= seq_to_nat(s),
    decreases s.len() - k,
{
    if k < s.len() {
        lemma_seq_to_nat_prefix_le(s, k + 1);
        assert(s.take(k + 1).take(k) =~= s.take(k));
        assert(seq_to_nat(s.take(k + 1)) == seq_to_nat(s.take(k)) * 10 + char_digit(
            s.take(k + 1).last(),
        ));
    } else {
        assert(s.take(k) =~= s);
    }
}

/// Parses a decimal rendering of a natural number: the denoted value
/// for a non-empty all-digit string that fits, nothing otherwise.
pub fn parse_u64(s: &str) -> (r: Option<u64>)
    ensures
        match r {
            Some(v) => s@.len() >= 1 && (forall|i: int| 0 <= i < s@.len() ==> is_digit(s@[i]))
                && v as nat == seq_to_nat(s@),
            None => s@.len() == 0 || !(forall|i: int| 0 <= i < s@.len() ==> is_digit(s@[i]))
                || seq_to_nat(s@) > u64::MAX,
        },
{
    accumulate_digits(s)
}

/// Whether a character is a decimal digit.
pub fn is_digit_exec(c: char) -> (r: bool)
    ensures
        r == is_digit(c),
{
    c == '0' || c == '1' || c == '2' || c == '3' || c == '4' || c == '5' || c == '6' || c == '7'
        || c == '8' || c == '9'
}

/// Accumulates the value of an all-digit string left to right.
fn accumulate_digits(s: &str) -> (r: Option<u64>)
    ensures
        match r {
            Some(v) => s@.len() >= 1 && (forall|i: int| 0 <= i < s@.len() ==> is_digit(s@[i]))
                && v as nat == seq_to_nat(s@),
            None => s@.len() == 0 || !(forall|i: int| 0 <= i < s@.len() ==> is_digit(s@[i]))
                || seq_to_nat(s@) > u64::MAX,
        },
{
    let n = s.unicode_len();
    if n == 0 {
        return None;
    }
    let mut acc: u64 = 0;
    let mut i: usize = 0;
    while i < n
        invariant
            i <= n,
            n == s@.len(),
            forall|k: int| 0 <= k < i ==> is_digit(s@[k]),
            acc as nat == seq_to_nat(s@.take(i as int)),
        decreases n - i,
    {
        let c = s.get_char(i);
        if !is_digit_exec(c) {
            return None;
        }
        let d: u64 = digit_value(c);
        proof {
            assert(s@.take(i + 1).take(i as int) =~= s@.take(i as int));
            assert(s@.take(i + 1).last() == s@[i as int]);
        }
        if acc > (u64::MAX - d) / 10 {
            proof {
                lemma_seq_to_nat_prefix_le(s@, i + 1);
                assert(seq_to_nat(s@.take(i + 1)) == acc * 10 + d);
            }
            return None;
        }
        acc = acc * 10 + d;
        i = i + 1;
    }
    proof {
        assert(s@.take(n as int) =~= s@);
    }
    Some(acc)
}

/// The value of a digit character.
fn digit_value(c: char) -> (r: u64)
    requires
        is_digit(c),
    ensures
        r == char_digit(c),
        r < 10,
{
    if c == '0' {
        0
    } else if c == '1' {
        1
    } else if c == '2' {
        2
    } else if c == '3' {
        3
    } else if c == '4' {
        4
    } else if c == '5' {
        5
    } else if c == '6' {
        6
    } else if c == '7' {
        7
    } else if c == '8' {
        8
    } else {
        9
    }
}

/// The five fraction digits of a `1e5`-scaled value's fractional part.
pub open spec fn frac5_digits(f: int) -> Seq<char>
    recommends
        0 <= f < 100_000,
{
    seq![
        digit_char(f / 10000),
        digit_char((f / 1000) % 10),
        digit_char((f / 100) % 10),
        digit_char((f / 10) % 10),
        digit_char(f % 10),
    ]
}

/// The decimal rendering of a `1e5`-scaled value: an optional sign, the
/// whole part, a point, and exactly five fraction digits.
pub open spec fn scaled_digits(v: int) -> Seq<char> {
    let a = if v >= 0 {
        v
    } else {
        -v
    };
    let sign: Seq<char> = if v < 0 {
        seq!['-']
    } else {
        Seq::empty()
    };
    sign + nat_digits((a / 100_000) as nat) + seq!['.'] + frac5_digits(a % 100_000)
}

/// Renders a `1e5`-scaled value in decimal.
pub fn format_scaled_e5(v: i64) -> (r: String)
    ensures
        r@ == scaled_digits(v as int),
{
    let a: u64 = if v >= 0 {
        v as u64
    } else {
        (-(v as i128)) as u64
    };
    let mut s: String = if v < 0 {
        let mut t = String::new();
        t.append("-");
        proof {
            reveal_strlit("-");
            assert(t@ =~= seq!['-']);
        }
        t
    } else {
        String::new()
    };
    let whole = format_u64(a / 100_000);
    s.append(whole.as_str());
    s.append(".");
    proof {
        reveal_strlit(".");
    }
    let f = a % 100_000;
    s.append(digit_str(f / 10000));
    s.append(digit_str((f / 1000) % 10));
    s.append(digit_str((f / 100) % 10));
    s.append(digit_str((f / 10) % 10));
    s.append(digit_str(f % 10));
    proof {
        assert(s@ =~= scaled_digits(v as int));
    }
    s
}

/// The decimal rendering of a signed integer.
pub open spec fn int_digits(v: int) -> Seq<char> {
    let sign: Seq<char> = if v < 0 {
        seq!['-']
    } else {
        Seq::empty()
    };
    sign + nat_digits((if v >= 0 {
        v
    } else {
        -v
    }) as nat)
}

/// Renders a signed integer in decimal.
pub fn format_i64(v: i64) -> (r: String)
    ensures
        r@ == int_digits(v as int),
{
    let a: u64 = if v >= 0 {
        v as u64
    } else {
        (-(v as i128)) as u64
    };
    let mut s: String = if v < 0 {
        let mut t = String::new();
        t.append("-");
        proof {
            reveal_strlit("-");
            assert(t@ =~= seq!['-']);
        }
        t
    } else {
        String::new()
    };
    let d = format_u64(a);
    s.append(d.as_str());
    proof {
        assert(s@ =~= int_digits(v as int));
    }
    s
}

/// `width` digits of `f`, zero-padded at the front.
pub open spec fn padded_digits(f: int, width: nat) -> Seq<char> {
    Seq::new(width, |i: int| digit_char((f / pow10((width - 1 - i) as nat)) % 10))
}

/// Renders `f` as exactly `width` digits, zero-padded.
pub fn format_padded(f: u64, width: u32) -> (r: String)
    requires
        width <= 18,
    ensures
        r@ == padded_digits(f as int, width as nat),
{
    let mut s = String::new();
    let mut k: u32 = 0;
    while k < width
        invariant
            k <= width <= 18,
            s@ == padded_digits(f as int, width as nat).take(k as int),
        decreases width - k,
    {
        let p = pow10_i64(width - 1 - k);
        let d: u64 = ((f / (p as u64)) % 10) as u64;
        s.append(digit_str(d));
        proof {
            assert(s@ =~= padded_digits(f as int, width as nat).take(k + 1));
        }
        k = k + 1;
    }
    proof {
        assert(padded_digits(f as int, width as nat).take(width as int) =~= padded_digits(
            f as int,
            width as nat,
        ));
    }
    s
}

/// The decimal rendering of a monetary amount in cents: an optional
/// sign, the whole currency units, a point, and two digits.
pub open spec fn cents_digits(v: int) -> Seq<char> {
    let a = if v >= 0 {
        v
    } else {
        -v
    };
    let sign: Seq<char> = if v < 0 {
        seq!['-']
    } else {
        Seq::empty()
    };
    sign + nat_digits((a / 100) as nat) + seq!['.'] + padded_digits(a % 100, 2)
}

/// Renders a monetary amount held in cents.
pub fn format_cents(v: i64) -> (r: String)
    ensures
        r@ == cents_digits(v as int),
{
    let a: u64 = if v >= 0 {
        v as u64
    } else {
        (-(v as i128)) as u64
    };
    let mut s: String = if v < 0 {
        let mut t = String::new();
        t.append("-");
        proof {
            reveal_strlit("-");
            assert(t@ =~= seq!['-']);
        }
        t
    } else {
        String::new()
    };
    let whole = format_u64(a / 100);
    s.append(whole.as_str());
    s.append(".");
    proof {
        reveal_strlit(".");
    }
    let frac = format_padded(a % 100, 2);
    s.append(frac.as_str());
    proof {
        assert(s@ =~= cents_digits(v as int));
    }
    s
}

/// The decimal rendering of a `1e9`-scaled ratio: an optional sign, the
/// whole part, a point, and nine digits.
pub open spec fn ratio_digits(v: int) -> Seq<char> {
    let a = if v >= 0 {
        v
    } else {
        -v
    };
    let sign: Seq<char> = if v < 0 {
        seq!['-']
    } else {
        Seq::empty()
    };
    sign + nat_digits((a / 1_000_000_000) as nat) + seq!['.'] + padded_digits(a % 1_000_000_000, 9)
}

/// Renders a `1e9`-scaled ratio.
pub fn format_ratio_e9(v: i64) -> (r: String)
    ensures
        r@ == ratio_digits(v as int),
{
    let a: u64 = if v >= 0 {
        v as u64
    } else {
        (-(v as i128)) as u64
    };
    let mut s: String = if v < 0 {
        let mut t = String::new();
        t.append("-");
        proof {
            reveal_strlit("-");
            assert(t@ =~= seq!['-']);
        }
        t
    } else {
        String::new()
    };
    let whole = format_u64(a / 1_000_000_000);
    s.append(whole.as_str());
    s.append(".");
    proof {
        reveal_strlit(".");
    }
    let frac = format_padded(a % 1_000_000_000, 9);
    s.append(frac.as_str());
    proof {
        assert(s@ =~= ratio_digits(v as int));
    }
    s
}

/// Rendering a number and parsing it back yields the number.
pub proof fn lemma_u64_round_trip(n: u64)
    ensures
        seq_to_nat(nat_digits(n as nat)) == n,
        nat_digits(n as nat).len() >= 1,
        forall|i: int|
            0 <= i < nat_digits(n as nat).len() ==> is_digit(#[trigger] nat_digits(n as nat)[i]),
{
    lemma_nat_digits_value(n as nat);
}


/// Whether every character of `s` is a digit.
pub open spec fn all_digits(s: Seq<char>) -> bool {
    forall|i: int| 0 <= i < s.len() ==> is_digit(#[trigger] s[i])
}

/// What a signed decimal rendering denotes: the digits' value, negated
/// after a leading minus; nothing for an empty or non-numeric string.
pub open spec fn spec_parse_int(s: Seq<char>) -> Option<int> {
    if s.len() >= 1 && s[0] == '-' {
        let body = s.skip(1);
        if body.len() >= 1 && all_digits(body) {
            Some(-(seq_to_nat(body) as int))
        } else {
            None
        }
    } else if s.len() >= 1 && all_digits(s) {
        Some(seq_to_nat(s) as int)
    } else {
        None
    }
}

/// Rendering a signed integer and reading it back yields the integer.
pub proof fn lemma_int_digits_round_trip(v: int)
    ensures
        spec_parse_int(int_digits(v)) == Some(v),
{
    if v >= 0 {
        lemma_nat_digits_value(v as nat);
        assert(int_digits(v) =~= nat_digits(v as nat));
        assert(!is_digit(int_digits(v)[0]) ==> false);
    } else {
        lemma_nat_digits_value((-v) as nat);
        assert(int_digits(v) =~= seq!['-'] + nat_digits((-v) as nat));
        assert(int_digits(v)[0] == '-');
        assert(int_digits(v).skip(1) =~= nat_digits((-v) as nat));
    }
}

/// The value five padded fraction digits denote.
pub open spec fn frac5_value(s: Seq<char>) -> int
    recommends
        s.len() == 5,
{
    char_digit(s[0]) * 10000 + char_digit(s[1]) * 1000 + char_digit(s[2]) * 100 + char_digit(
        s[3],
    ) * 10 + char_digit(s[4])
}

/// What a `1e5`-scaled rendering denotes: sign, whole part, a point and
/// exactly five fraction digits; nothing for any other shape.
pub open spec fn spec_parse_scaled(s: Seq<char>) -> Option<int> {
    let neg = s.len() >= 1 && s[0] == '-';
    let body = if neg {
        s.skip(1)
    } else {
        s
    };
    if body.len() >= 7 && body[body.len() - 6] == '.' && all_digits(body.take(body.len() - 6))
        && all_digits(body.skip(body.len() - 5)) {
        let whole = seq_to_nat(body.take(body.len() - 6)) as int;
        let frac = frac5_value(body.skip(body.len() - 5));
        let magnitude = whole * 100_000 + frac;
        if neg {
            Some(-magnitude)
        } else {
            Some(magnitude)
        }
    } else {
        None
    }
}

/// Five padded digits denote the number they were made from.
pub proof fn lemma_frac5_value(f: int)
    requires
        0 <= f < 100_000,
    ensures
        frac5_digits(f).len() == 5,
        all_digits(frac5_digits(f)),
        frac5_value(frac5_digits(f)) == f,
{
    lemma_char_digit_inverse(f / 10000);
    lemma_char_digit_inverse((f / 1000) % 10);
    lemma_char_digit_inverse((f / 100) % 10);
    lemma_char_digit_inverse((f / 10) % 10);
    lemma_char_digit_inverse(f % 10);
    assert((f / 10000) * 10000 + ((f / 1000) % 10) * 1000 + ((f / 100) % 10) * 100 + ((f / 10)
        % 10) * 10 + f % 10 == f) by (nonlinear_arith)
        requires 0 <= f < 100_000;
    assert forall|i: int| 0 <= i < frac5_digits(f).len() implies is_digit(
        #[trigger] frac5_digits(f)[i],
    ) by {
        assert(0 <= f / 10000 < 10) by (nonlinear_arith)
            requires 0 <= f < 100_000;
    }
}

/// Rendering a `1e5`-scaled value and reading it back yields the value.
#[verifier::rlimit(100)]
pub proof fn lemma_scaled_digits_round_trip(v: int)
    ensures
        spec_parse_scaled(scaled_digits(v)) == Some(v),
{
    let a = if v >= 0 {
        v
    } else {
        -v
    };
    let whole = nat_digits((a / 100_000) as nat);
    let frac = frac5_digits(a % 100_000);
    lemma_nat_digits_value((a / 100_000) as nat);
    lemma_frac5_value(a % 100_000);
    let body = whole + seq!['.'] + frac;
    assert(body.len() == whole.len() + 6);
    assert(body[body.len() - 6] == '.');
    assert(body.take(body.len() - 6) =~= whole);
    assert(body.skip(body.len() - 5) =~= frac);
    if v >= 0 {
        assert(scaled_digits(v) =~= body);
        assert(!(scaled_digits(v)[0] == '-'));
        assert(seq_to_nat(whole) * 100_000 + frac5_value(frac) == v) by (nonlinear_arith)
            requires
                seq_to_nat(whole) == v / 100_000 && frac5_value(frac) == v % 100_000 && v >= 0,
        ;
    } else {
        assert(scaled_digits(v) =~= seq!['-'] + body);
        assert(scaled_digits(v)[0] == '-');
        assert(scaled_digits(v).skip(1) =~= body);
        assert(seq_to_nat(whole) * 100_000 + frac5_value(frac) == -v) by (nonlinear_arith)
            requires
                seq_to_nat(whole) == (-v) / 100_000 && frac5_value(frac) == (-v) % 100_000 && v
                    < 0,
        ;
    }
}

/// Reads the last five characters as padded fraction digits.
fn parse_frac5(s: &str) -> (r: Option<i64>)
    requires
        s@.len() >= 5,
    ensures
        match r {
            Some(f) => 0 <= f < 100_000 && all_digits(s@.skip(s@.len() - 5)) && f == frac5_value(
                s@.skip(s@.len() - 5),
            ),
            None => !all_digits(s@.skip(s@.len() - 5)),
        },
{
    let n = s.unicode_len();
    let mut frac: i64 = 0;
    let mut k: usize = n - 5;
    while k < n
        invariant
            n - 5 <= k <= n,
            n == s@.len(),
            n >= 5,
            0 <= frac < pow10((k - (n - 5)) as nat),
            forall|i: int| n - 5 <= i < k ==> is_digit(#[trigger] s@[i]),
            frac == frac_prefix_value(s@, n as int, k as int),
        decreases n - k,
    {
        let c = s.get_char(k);
        if !is_digit_exec(c) {
            proof {
                assert(s@.skip(n - 5)[k - (n - 5)] == s@[k as int]);
                assert(!is_digit(s@.skip(n - 5)[k - (n - 5)]));
            }
            return None;
        }
        let d = digit_value(c);
        proof {
            crate::fixed::lemma_pow10_increases((k - (n - 5)) as nat, 4);
            crate::fixed::lemma_pow10_18_value();
            assert(pow10(((k + 1) - (n - 5)) as nat) == 10 * pow10((k - (n - 5)) as nat));
            assert(frac < 10_000);
        }
        frac = frac * 10 + (d as i64);
        k = k + 1;
    }
    proof {
        crate::fixed::lemma_pow10_18_value();
        lemma_frac_prefix_full(s@, n as int);
        assert(s@.subrange(n - 5, n as int) =~= s@.skip(n - 5));
        assert forall|i: int| 0 <= i < s@.skip(n - 5).len() implies is_digit(
            #[trigger] s@.skip(n - 5)[i],
        ) by {
            assert(s@.skip(n - 5)[i] == s@[n - 5 + i]);
        }
    }
    Some(frac)
}

/// Five digit characters denote a value within the padding range.
proof fn lemma_frac5_value_nonneg(f: Seq<char>)
    requires
        f.len() == 5,
    ensures
        frac5_value(f) >= 0,
{
}

/// A whole part beyond the unsigned machine range keeps the denoted
/// magnitude beyond the signed one.
proof fn lemma_huge_whole(w: int, frac: int)
    by (nonlinear_arith)
    requires
        w > 0xFFFF_FFFF_FFFF_FFFFint,
        frac >= 0,
    ensures
        w * 100_000 + frac > 0x7FFF_FFFF_FFFF_FFFFint + 1,
{
}

/// Reads a `1e5`-scaled rendering back; see [`spec_parse_scaled`], with
/// values beyond the machine range refused.
#[verifier::rlimit(60)]
pub fn parse_scaled_e5(s: &str) -> (r: Option<i64>)
    ensures
        r == match spec_parse_scaled(s@) {
            Some(v) => if i64::MIN <= v <= i64::MAX {
                Some(v as i64)
            } else {
                None::<i64>
            },
            None => None::<i64>,
        },
{
    let n = s.unicode_len();
    let neg = n >= 1 && s.get_char(0) == '-';
    let start: usize = if neg {
        1
    } else {
        0
    };
    let body_len = n - start;
    if body_len < 7 {
        return None;
    }
    if s.get_char(n - 6) != '.' {
        return None;
    }
    let ghost body = s@.skip(start as int);
    proof {
        assert(body.len() == body_len);
        assert(body[body.len() - 6] == s@[n - 6]);
        assert(body.take(body.len() - 6) =~= s@.subrange(start as int, n - 6));
        assert(body.skip(body.len() - 5) =~= s@.skip(n - 5));
    }
    let frac: i64 = match parse_frac5(s) {
        Some(f) => f,
        None => {
            return None;
        },
    };
    let whole_str = s.substring_char(start, n - 6);
    let whole: u64 = match parse_u64(whole_str) {
        Some(w) => w,
        None => {
            proof {
                if all_digits(body.take(body.len() - 6)) {
                    // The digits denote more than the unsigned range,
                    // so the value lies outside the signed range too.
                    lemma_frac5_value_nonneg(body.skip(body.len() - 5));
                    lemma_huge_whole(
                        seq_to_nat(body.take(body.len() - 6)) as int,
                        frac5_value(body.skip(body.len() - 5)),
                    );
                }
            }
            return None;
        },
    };
    let magnitude_wide: i128 = (whole as i128) * 100_000 + (frac as i128);
    if neg {
        if magnitude_wide > (i64::MAX as i128) + 1 {
            return None;
        }
        Some((-magnitude_wide) as i64)
    } else {
        if magnitude_wide > i64::MAX as i128 {
            return None;
        }
        Some(magnitude_wide as i64)
    }
}

/// The value of the fraction digits read so far.
pub open spec fn frac_prefix_value(s: Seq<char>, n: int, k: int) -> int
    decreases k - (n - 5),
{
    if k <= n - 5 {
        0
    } else {
        frac_prefix_value(s, n, k - 1) * 10 + char_digit(s[k - 1])
    }
}

/// After all five digits, the prefix value is the fraction's value.
proof fn lemma_frac_prefix_full(s: Seq<char>, n: int)
    requires
        5 <= n <= s.len(),
    ensures
        frac_prefix_value(s, n, n) == frac5_value(s.subrange(n - 5, n)),
{
    let f = s.subrange(n - 5, n);
    assert(frac_prefix_value(s, n, n - 5) == 0);
    assert(frac_prefix_value(s, n, n - 4) == char_digit(s[n - 5]));
    assert(frac_prefix_value(s, n, n - 3) == char_digit(s[n - 5]) * 10 + char_digit(s[n - 4]));
    assert(frac_prefix_value(s, n, n - 2) == frac_prefix_value(s, n, n - 3) * 10 + char_digit(
        s[n - 3],
    ));
    assert(frac_prefix_value(s, n, n - 1) == frac_prefix_value(s, n, n - 2) * 10 + char_digit(
        s[n - 2],
    ));
    assert(frac_prefix_value(s, n, n) == frac_prefix_value(s, n, n - 1) * 10 + char_digit(
        s[n - 1],
    ));
    assert(s[n - 5] == f[0] && s[n - 4] == f[1] && s[n - 3] == f[2] && s[n - 2] == f[3] && s[n
        - 1] == f[4]);
}

} // verus!
