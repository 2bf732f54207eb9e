//! Reading the canonical parameter display back: a structural decoder
//! over character sequences, and the proof that rendering a parameter
//! set and decoding the result yields the same tuple.
//!
//! Separators carry the structure, so the round trip asks that names
//! stay clear of `=`, `;` and `|`, and text values clear of `;` and
//! `|`.

use vstd::prelude::*;

use crate::optimization::{named_values_chars_upto, param_value_chars, ParameterSet};
use crate::params::ParamValue;
use crate::text::{
    int_digits, is_digit, scaled_digits, spec_parse_int, spec_parse_scaled,
    lemma_int_digits_round_trip, lemma_scaled_digits_round_trip, lemma_nat_digits_value,
};

verus! {

/// The view of one parameter value: its kind letter and its payload.
pub open spec fn value_view(v: ParamValue) -> (char, int, Seq<char>, bool) {
    match v {
        ParamValue::Int(i) => ('i', i as int, Seq::empty(), false),
        ParamValue::Fixed(x) => ('f', x as int, Seq::empty(), false),
        ParamValue::Text(t) => ('t', 0, t@, false),
        ParamValue::Flag(b) => ('b', 0, Seq::empty(), b),
    }
}

/// Splits at the first occurrence of `stop`: what precedes it, and
/// what follows it; a sequence without `stop` is all prefix.
pub open spec fn take_until(s: Seq<char>, stop: char) -> (Seq<char>, Seq<char>)
    decreases s.len(),
{
    if s.len() == 0 {
        (Seq::empty(), Seq::empty())
    } else if s[0] == stop {
        (Seq::empty(), s.skip(1))
    } else {
        let (h, t) = take_until(s.skip(1), stop);
        (seq![s[0]] + h, t)
    }
}

/// Whether `c` occurs nowhere in `s`.
pub open spec fn clear_of(s: Seq<char>, c: char) -> bool {
    forall|i: int| 0 <= i < s.len() ==> #[trigger] s[i] != c
}

/// Splitting a sequence built around one separator recovers its parts.
pub proof fn lemma_take_until_concat(a: Seq<char>, stop: char, d: Seq<char>)
    requires
        clear_of(a, stop),
    ensures
        take_until(a + seq![stop] + d, stop) == (a, d),
    decreases a.len(),
{
    let s = a + seq![stop] + d;
    if a.len() == 0 {
        assert(s =~= seq![stop] + d);
        assert(s[0] == stop);
        assert(s.skip(1) =~= d);
        assert(take_until(s, stop).0 =~= a);
    } else {
        assert(s[0] == a[0]);
        assert(s.skip(1) =~= a.skip(1) + seq![stop] + d);
        assert(clear_of(a.skip(1), stop));
        lemma_take_until_concat(a.skip(1), stop, d);
        assert(seq![s[0]] + a.skip(1) =~= a);
    }
}

/// What one rendered value decodes to, if well formed.
pub open spec fn decode_value(s: Seq<char>) -> Option<(char, int, Seq<char>, bool)> {
    if s.len() == 0 {
        None
    } else if s[0] == 'i' {
        match spec_parse_int(s.skip(1)) {
            Some(v) => Some(('i', v, Seq::empty(), false)),
            None => None,
        }
    } else if s[0] == 'f' {
        match spec_parse_scaled(s.skip(1)) {
            Some(v) => Some(('f', v, Seq::empty(), false)),
            None => None,
        }
    } else if s[0] == 't' {
        Some(('t', 0, s.skip(1), false))
    } else if s[0] == 'b' && s.len() == 2 && (s[1] == '0' || s[1] == '1') {
        Some(('b', 0, Seq::empty(), s[1] == '1'))
    } else {
        None
    }
}

/// Rendering one value and decoding it yields its view.
pub proof fn lemma_decode_value(v: ParamValue)
    ensures
        decode_value(param_value_chars(v)) == Some(value_view(v)),
{
    let s = param_value_chars(v);
    match v {
        ParamValue::Int(i) => {
            assert(s =~= seq!['i'] + int_digits(i as int));
            assert(s.skip(1) =~= int_digits(i as int));
            lemma_int_digits_round_trip(i as int);
        },
        ParamValue::Fixed(x) => {
            assert(s =~= seq!['f'] + scaled_digits(x as int));
            assert(s.skip(1) =~= scaled_digits(x as int));
            lemma_scaled_digits_round_trip(x as int);
        },
        ParamValue::Text(t) => {
            assert(s =~= seq!['t'] + t@);
            assert(s.skip(1) =~= t@);
        },
        ParamValue::Flag(b) => {
            if b {
                assert(s =~= seq!['b', '1']);
            } else {
                assert(s =~= seq!['b', '0']);
            }
        },
    }
}

/// The rendering of a value stays clear of the separators (text values
/// permitting), so the outer splits cannot cut through it.
pub proof fn lemma_value_chars_clear(v: ParamValue)
    requires
        v matches ParamValue::Text(t) ==> clear_of(t@, ';') && clear_of(t@, '|'),
    ensures
        clear_of(param_value_chars(v), ';'),
        clear_of(param_value_chars(v), '|'),
{
    match v {
        ParamValue::Int(i) => {
            lemma_int_digits_clear(i as int);
        },
        ParamValue::Fixed(x) => {
            lemma_scaled_digits_clear(x as int);
        },
        ParamValue::Text(_) => {},
        ParamValue::Flag(_) => {},
    }
}

/// A signed decimal rendering stays clear of the separators.
pub proof fn lemma_int_digits_clear(v: int)
    ensures
        clear_of(int_digits(v), ';'),
        clear_of(int_digits(v), '|'),
{
    let a = if v >= 0 {
        v
    } else {
        -v
    };
    lemma_nat_digits_value(a as nat);
    assert forall|i: int| 0 <= i < int_digits(v).len() implies #[trigger] int_digits(v)[i]
        != ';' by {
        if v < 0 && i == 0 {
        } else {
            let j = if v < 0 {
                i - 1
            } else {
                i
            };
            assert(int_digits(v)[i] == nat_digits_of(a)[j]);
        }
    }
    assert forall|i: int| 0 <= i < int_digits(v).len() implies #[trigger] int_digits(v)[i]
        != '|' by {
        if v < 0 && i == 0 {
        } else {
            let j = if v < 0 {
                i - 1
            } else {
                i
            };
            assert(int_digits(v)[i] == nat_digits_of(a)[j]);
        }
    }
}

/// The digits of a magnitude; a naming convenience for the proofs.
pub open spec fn nat_digits_of(a: int) -> Seq<char> {
    crate::text::nat_digits(a as nat)
}

/// A fixed-point rendering stays clear of the separators.
pub proof fn lemma_scaled_digits_clear(v: int)
    ensures
        clear_of(scaled_digits(v), ';'),
        clear_of(scaled_digits(v), '|'),
{
    let a = if v >= 0 {
        v
    } else {
        -v
    };
    lemma_nat_digits_value((a / 100_000) as nat);
    let s = scaled_digits(v);
    assert forall|i: int| 0 <= i < s.len() implies #[trigger] s[i] != ';' && s[i] != '|' by {
        lemma_scaled_char_shape(v, i);
    }
}

/// Each character of a fixed-point rendering is a sign, a digit or the
/// point.
pub proof fn lemma_scaled_char_shape(v: int, i: int)
    requires
        0 <= i < scaled_digits(v).len(),
    ensures
        scaled_digits(v)[i] == '-' || scaled_digits(v)[i] == '.' || is_digit(scaled_digits(v)[i]),
{
    let a = if v >= 0 {
        v
    } else {
        -v
    };
    let sign: Seq<char> = if v < 0 {
        seq!['-']
    } else {
        Seq::empty()
    };
    let whole = nat_digits_of(a / 100_000);
    let frac = crate::text::frac5_digits(a % 100_000);
    lemma_nat_digits_value((a / 100_000) as nat);
    crate::text::lemma_frac5_value(a % 100_000);
    let s = scaled_digits(v);
    assert(s =~= sign + whole + seq!['.'] + frac);
    if i < sign.len() {
    } else if i < sign.len() + whole.len() {
        assert(s[i] == whole[i - sign.len()]);
    } else if i == sign.len() + whole.len() {
    } else {
        assert(s[i] == frac[i - sign.len() - whole.len() - 1]);
    }
}


/// The rendering of named values from entry `i` on, head first.
pub open spec fn named_chars_from(params: Seq<(String, ParamValue)>, i: int) -> Seq<char>
    decreases params.len() - i,
{
    if i < 0 || i >= params.len() {
        Seq::empty()
    } else {
        params[i].0@ + seq!['='] + param_value_chars(params[i].1) + seq![';'] + named_chars_from(
            params,
            i + 1,
        )
    }
}

/// The head-first rendering equals the display's left-folded one.
pub proof fn lemma_named_chars_agree(params: Seq<(String, ParamValue)>)
    ensures
        named_values_chars_upto(params, params.len() as int) == named_chars_from(params, 0),
{
    lemma_named_chars_agree_step(params, 0);
    assert(named_values_chars_upto(params, 0) + named_chars_from(params, 0) =~= named_chars_from(
        params,
        0,
    ));
}

/// See [`lemma_named_chars_agree`].
proof fn lemma_named_chars_agree_step(params: Seq<(String, ParamValue)>, k: int)
    requires
        0 <= k <= params.len(),
    ensures
        named_values_chars_upto(params, k) + named_chars_from(params, k)
            == named_values_chars_upto(params, params.len() as int),
    decreases params.len() - k,
{
    if k == params.len() {
        assert(named_values_chars_upto(params, k) + named_chars_from(params, k)
            =~= named_values_chars_upto(params, k));
    } else {
        lemma_named_chars_agree_step(params, k + 1);
        assert(named_values_chars_upto(params, k + 1) == named_values_chars_upto(params, k)
            + params[k].0@ + seq!['='] + param_value_chars(params[k].1) + seq![';']);
        assert(named_values_chars_upto(params, k) + named_chars_from(params, k)
            =~= named_values_chars_upto(params, k + 1) + named_chars_from(params, k + 1));
    }
}

/// Whether every name is clear of the separators and every text value
/// is clear of the ones that would cut it.
pub open spec fn named_values_plain(params: Seq<(String, ParamValue)>) -> bool {
    forall|i: int|
        0 <= i < params.len() ==> clear_of((#[trigger] params[i]).0@, '=') && clear_of(
            params[i].0@,
            ';',
        ) && clear_of(params[i].0@, '|') && (params[i].1 matches ParamValue::Text(t) ==> clear_of(
            t@,
            ';',
        ) && clear_of(t@, '|'))
}

/// A plain rendering stays clear of the section separator, and is at
/// least as long as its entry count.
pub proof fn lemma_named_chars_clear(params: Seq<(String, ParamValue)>, i: int)
    requires
        0 <= i <= params.len(),
        named_values_plain(params),
    ensures
        clear_of(named_chars_from(params, i), '|'),
        named_chars_from(params, i).len() >= params.len() - i,
    decreases params.len() - i,
{
    if i < params.len() {
        lemma_named_chars_clear(params, i + 1);
        lemma_value_chars_clear(params[i].1);
    }
}

/// What a rendered named-value section decodes to, consuming one entry
/// per step of fuel.
pub open spec fn decode_named(s: Seq<char>, fuel: nat) -> Option<Seq<(Seq<char>, (char, int, Seq<char>, bool))>>
    decreases fuel,
{
    if s.len() == 0 {
        Some(Seq::empty())
    } else if fuel == 0 {
        None
    } else {
        let (entry, rest) = take_until(s, ';');
        let (name, value_part) = take_until(entry, '=');
        match decode_value(value_part) {
            Some(vv) => match decode_named(rest, (fuel - 1) as nat) {
                Some(tail) => Some(seq![(name, vv)] + tail),
                None => None,
            },
            None => None,
        }
    }
}

/// The views of a named-value list.
pub open spec fn named_view(params: Seq<(String, ParamValue)>) -> Seq<(Seq<char>, (char, int, Seq<char>, bool))> {
    Seq::new(params.len(), |i: int| (params[i].0@, value_view(params[i].1)))
}

/// Rendering named values and decoding the result yields their views.
pub proof fn lemma_decode_named(params: Seq<(String, ParamValue)>, i: int, fuel: nat)
    requires
        0 <= i <= params.len(),
        named_values_plain(params),
        fuel >= params.len() - i,
    ensures
        decode_named(named_chars_from(params, i), fuel) == Some(
            Seq::new((params.len() - i) as nat, |j: int| (params[i + j].0@, value_view(params[i + j].1))),
        ),
    decreases params.len() - i,
{
    let s = named_chars_from(params, i);
    if i == params.len() {
        assert(s.len() == 0);
        assert(Seq::new(0nat, |j: int| (params[i + j].0@, value_view(params[i + j].1)))
            =~= Seq::<(Seq<char>, (char, int, Seq<char>, bool))>::empty());
    } else {
        let name = params[i].0@;
        let vchars = param_value_chars(params[i].1);
        let rest = named_chars_from(params, i + 1);
        let entry = name + seq!['='] + vchars;
        lemma_value_chars_clear(params[i].1);
        assert(s =~= entry + seq![';'] + rest);
        assert(clear_of(entry, ';'));
        lemma_take_until_concat(entry, ';', rest);
        assert(entry =~= name + seq!['='] + vchars);
        lemma_take_until_concat(name, '=', vchars);
        lemma_decode_value(params[i].1);
        assert(s.len() > 0);
        assert(fuel > 0);
        lemma_decode_named(params, i + 1, (fuel - 1) as nat);
        assert(seq![(name, value_view(params[i].1))] + Seq::new(
            (params.len() - i - 1) as nat,
            |j: int| (params[i + 1 + j].0@, value_view(params[i + 1 + j].1)),
        ) =~= Seq::new(
            (params.len() - i) as nat,
            |j: int| (params[i + j].0@, value_view(params[i + j].1)),
        ));
    }
}

/// What a full display rendering decodes to: the strategy parameter
/// views, the sizer name, the sizer value, the additional parameter
/// views and the slippage.
pub open spec fn decode_display(s: Seq<char>) -> Option<(
    Seq<(Seq<char>, (char, int, Seq<char>, bool))>,
    Seq<char>,
    int,
    Seq<(Seq<char>, (char, int, Seq<char>, bool))>,
    int,
)> {
    let (p_seg, r1) = take_until(s, '|');
    let (name_seg, r2) = take_until(r1, '|');
    let (psv_seg, r3) = take_until(r2, '|');
    let (x_seg, slip_seg) = take_until(r3, '|');
    match (
        decode_named(p_seg, p_seg.len()),
        spec_parse_scaled(psv_seg),
        decode_named(x_seg, x_seg.len()),
        spec_parse_scaled(slip_seg),
    ) {
        (Some(p), Some(psv), Some(x), Some(slip)) => Some((p, name_seg, psv, x, slip)),
        _ => None,
    }
}

/// Rendering a parameter set for display and decoding the string back
/// yields the tuple it was made from: the strategy parameters, the
/// sizer name, the sizer value, the additional parameters and the
/// slippage.
pub proof fn lemma_display_round_trip(ps: ParameterSet)
    requires
        named_values_plain(ps.strategy_params@),
        named_values_plain(ps.pos_sizer_additional_params@),
        clear_of(ps.pos_sizer_name@, '|'),
    ensures
        decode_display(ps.spec_display()) == Some(
            (
                named_view(ps.strategy_params@),
                ps.pos_sizer_name@,
                ps.pos_sizer_value_e5 as int,
                named_view(ps.pos_sizer_additional_params@),
                ps.slippage_e5 as int,
            ),
        ),
{
    let p_chars = named_chars_from(ps.strategy_params@, 0);
    let x_chars = named_chars_from(ps.pos_sizer_additional_params@, 0);
    let psv_chars = scaled_digits(ps.pos_sizer_value_e5 as int);
    let slip_chars = scaled_digits(ps.slippage_e5 as int);
    lemma_named_chars_agree(ps.strategy_params@);
    lemma_named_chars_agree(ps.pos_sizer_additional_params@);
    lemma_named_chars_clear(ps.strategy_params@, 0);
    lemma_named_chars_clear(ps.pos_sizer_additional_params@, 0);
    lemma_scaled_digits_clear(ps.pos_sizer_value_e5 as int);
    lemma_scaled_digits_clear(ps.slippage_e5 as int);
    let s = ps.spec_display();
    let tail1 = ps.pos_sizer_name@ + seq!['|'] + psv_chars + seq!['|'] + x_chars + seq!['|']
        + slip_chars;
    assert(s =~= p_chars + seq!['|'] + tail1);
    lemma_take_until_concat(p_chars, '|', tail1);
    let tail2 = psv_chars + seq!['|'] + x_chars + seq!['|'] + slip_chars;
    assert(tail1 =~= ps.pos_sizer_name@ + seq!['|'] + tail2);
    lemma_take_until_concat(ps.pos_sizer_name@, '|', tail2);
    let tail3 = x_chars + seq!['|'] + slip_chars;
    assert(tail2 =~= psv_chars + seq!['|'] + tail3);
    lemma_take_until_concat(psv_chars, '|', tail3);
    lemma_take_until_concat(x_chars, '|', slip_chars);
    lemma_decode_named(ps.strategy_params@, 0, p_chars.len());
    lemma_decode_named(ps.pos_sizer_additional_params@, 0, x_chars.len());
    lemma_scaled_digits_round_trip(ps.pos_sizer_value_e5 as int);
    lemma_scaled_digits_round_trip(ps.slippage_e5 as int);
    assert(Seq::new(
        (ps.strategy_params@.len() - 0) as nat,
        |j: int| (ps.strategy_params@[0 + j].0@, value_view(ps.strategy_params@[0 + j].1)),
    ) =~= named_view(ps.strategy_params@));
    assert(Seq::new(
        (ps.pos_sizer_additional_params@.len() - 0) as nat,
        |j: int|
            (
                ps.pos_sizer_additional_params@[0 + j].0@,
                value_view(ps.pos_sizer_additional_params@[0 + j].1),
            ),
    ) =~= named_view(ps.pos_sizer_additional_params@));
}

} // verus!
