//! The text of integers: digits in a base, a base prefix, and rounding to a
//! power of the base.

use vstd::arithmetic::div_mod::{
    lemma_basic_div, lemma_div_decreases, lemma_fundamental_div_mod, lemma_mod_bound,
    lemma_mod_multiples_basic, lemma_small_mod,
};
use vstd::arithmetic::power::{lemma_pow0, lemma_pow_positive, pow};
use vstd::prelude::*;
use crate::error::{SingleFmtError, SingleFmtErrorModel};
use crate::name_map::{texts, NameMap};
use crate::number::{parse_signed, signed_decimal};
use crate::text::{contains_char, from_chars, to_chars};

verus! {

/// The character that writes the digit `d`, for digits below sixteen.
pub open spec fn digit_char(d: nat) -> char {
    seq!['0', '1', '2', '3', '4', '5', '6', '7', '8', '9', 'a', 'b', 'c', 'd', 'e', 'f'][d as int]
}

/// The digits of `n` in `base`, the most significant first.
pub open spec fn digits(n: nat, base: nat) -> Seq<char>
    decreases n,
{
    if base < 2 || n < base {
        seq![digit_char(n)]
    } else {
        proof {
            lemma_div_decreases(n as int, base as int);
        }
        digits(n / base, base).push(digit_char(n % base))
    }
}

/// `k` times the digit zero.
pub open spec fn zeros(k: nat) -> Seq<char> {
    Seq::new(k, |i: int| '0')
}

/// The direction in which a number is rounded.
#[derive(Clone, Copy, Debug, PartialEq, Eq)]
pub enum Rounding {
    /// Towards positive infinity.
    Up,
    /// Towards negative infinity.
    Down,
    /// To the nearest multiple; a tie goes away from zero.
    Nearest,
}

/// Whether a number of the given sign, which lies `rest` above a multiple of
/// `unit` in magnitude, goes to the next multiple in magnitude.
pub open spec fn rounds_away(rest: nat, unit: nat, negative: bool, mode: Rounding) -> bool {
    match mode {
        Rounding::Nearest => rest > 0 && 2 * rest >= unit,
        Rounding::Up => rest > 0 && !negative,
        Rounding::Down => rest > 0 && negative,
    }
}

/// The magnitude `magnitude`, rounded to a multiple of `unit`.
pub open spec fn rounded(magnitude: nat, unit: nat, negative: bool, mode: Rounding) -> nat {
    let whole = magnitude / unit;
    let rest = magnitude % unit;
    if rounds_away(rest, unit, negative, mode) {
        (whole + 1) * unit
    } else {
        (whole * unit) as nat
    }
}

/// Rounding gives a multiple of the unit that lies less than one unit from
/// the magnitude, and the magnitude itself where that is a multiple.
/// Rounding to the nearest multiple goes at most half a unit and, on a
/// tie, away from zero. Rounding a negative number up or a non-negative
/// number down never gives a larger magnitude; rounding a non-negative
/// number up or a negative number down never gives a smaller one.
pub proof fn lemma_rounded(magnitude: nat, unit: nat, negative: bool, mode: Rounding)
    requires
        unit > 0,
    ensures
        rounded(magnitude, unit, negative, mode) % unit == 0,
        magnitude - unit < rounded(magnitude, unit, negative, mode) < magnitude + unit,
        magnitude % unit == 0 ==> rounded(magnitude, unit, negative, mode) == magnitude,
        mode == Rounding::Nearest ==> 2 * (rounded(magnitude, unit, negative, mode) - magnitude) <= unit && 2
            * (magnitude - rounded(magnitude, unit, negative, mode)) <= unit,
        mode == Rounding::Nearest && 2 * (magnitude % unit) == unit ==> rounded(
            magnitude,
            unit,
            negative,
            mode,
        ) > magnitude,
        (mode == Rounding::Up) == negative && mode != Rounding::Nearest ==> rounded(
            magnitude,
            unit,
            negative,
            mode,
        ) <= magnitude,
        (mode == Rounding::Up) != negative && mode != Rounding::Nearest ==> rounded(
            magnitude,
            unit,
            negative,
            mode,
        ) >= magnitude,
{
    let whole = magnitude / unit;
    let rest = magnitude % unit;
    lemma_fundamental_div_mod(magnitude as int, unit as int);
    lemma_mod_bound(magnitude as int, unit as int);
    assert((whole + 1) * unit == unit * whole + unit) by (nonlinear_arith);
    assert(whole * unit == unit * whole) by (nonlinear_arith);
    assert(whole * unit >= 0) by (nonlinear_arith)
        requires
            whole >= 0,
            unit > 0,
    ;
    lemma_mod_multiples_basic(whole as int, unit as int);
    lemma_mod_multiples_basic((whole + 1) as int, unit as int);
}

/// Appending a zero multiplies by the base.
pub proof fn lemma_digits_shift(n: nat, base: nat)
    requires
        n >= 1,
        base >= 2,
    ensures
        digits(n * base, base) == digits(n, base).push('0'),
{
    assert(n * base >= base) by (nonlinear_arith)
        requires
            n >= 1,
            base >= 2,
    ;
    assert((n * base) / base == n && (n * base) % base == 0) by (nonlinear_arith)
        requires
            base >= 2,
    ;
}

/// The digits of a multiple of a power of the base end in as many zeros as
/// the power has.
pub proof fn lemma_digits_of_multiple(n: nat, base: nat, k: nat)
    requires
        n >= 1,
        base >= 2,
    ensures
        digits((n * pow(base as int, k)) as nat, base) == digits(n, base) + zeros(k),
    decreases k,
{
    if k == 0 {
        lemma_pow0(base as int);
        assert(n * 1 == n);
        assert(digits(n, base) + zeros(0) =~= digits(n, base));
    } else {
        let lower = pow(base as int, (k - 1) as nat);
        lemma_pow_positive(base as int, (k - 1) as nat);
        lemma_digits_of_multiple(n, base, (k - 1) as nat);
        assert(pow(base as int, k) == base * lower) by {
            reveal(pow);
        }
        assert(n * (base * lower) == (n * lower) * base) by (nonlinear_arith);
        assert(n * lower >= 1) by (nonlinear_arith)
            requires
                n >= 1,
                lower >= 1,
        ;
        lemma_digits_shift((n * lower) as nat, base);
        assert((digits(n, base) + zeros((k - 1) as nat)).push('0') =~= digits(n, base) + zeros(k));
    }
}

/// `num::checked_pow` on `u128`: `base` to the power `exp`, or `None` where
/// that does not fit. It squares and multiplies with checked
/// multiplications, and every product that it forms divides the result, so
/// it gives up only where the result itself is too large.
#[verifier::external_body]
fn checked_power(base: u128, exp: usize) -> (r: Option<u128>)
    ensures
        r == if pow(base as int, exp as nat) <= u128::MAX {
            Some(pow(base as int, exp as nat) as u128)
        } else {
            None::<u128>
        },
{
    num::checked_pow(base, exp)
}

/// The character that writes the digit `d`.
fn digit_to_char(d: u8) -> (r: char)
    requires
        d < 16,
    ensures
        r == digit_char(d as nat),
{
    if d == 0 {
        '0'
    } else if d == 1 {
        '1'
    } else if d == 2 {
        '2'
    } else if d == 3 {
        '3'
    } else if d == 4 {
        '4'
    } else if d == 5 {
        '5'
    } else if d == 6 {
        '6'
    } else if d == 7 {
        '7'
    } else if d == 8 {
        '8'
    } else if d == 9 {
        '9'
    } else if d == 10 {
        'a'
    } else if d == 11 {
        'b'
    } else if d == 12 {
        'c'
    } else if d == 13 {
        'd'
    } else if d == 14 {
        'e'
    } else {
        'f'
    }
}

/// Appends the digits of `n` in `base` to `out`.
fn push_digits(out: &mut Vec<char>, n: u128, base: u128)
    requires
        2 <= base <= 16,
    ensures
        final(out)@ == old(out)@ + digits(n as nat, base as nat),
    decreases n,
{
    if n >= base {
        proof {
            lemma_div_decreases(n as int, base as int);
        }
        push_digits(out, n / base, base);
    }
    let d = (n % base) as u8;
    out.push(digit_to_char(d));
    proof {
        if n >= base {
            assert(out@ =~= old(out)@ + digits((n / base) as nat, base as nat).push(
                digit_char((n % base) as nat),
            ));
        } else {
            lemma_small_mod(n as nat, base as nat);
            assert(out@ =~= old(out)@ + seq![digit_char(n as nat)]);
        }
    }
}

/// The number of units, each the `k`-th power of `base`, that `magnitude`
/// rounds to.
fn round_lead(magnitude: u128, base: u128, k: usize, negative: bool, mode: Rounding) -> (lead: u128)
    requires
        base >= 2,
        base % 2 == 0,
        k >= 1,
    ensures
        lead * pow(base as int, k as nat) == rounded(
            magnitude as nat,
            pow(base as int, k as nat) as nat,
            negative,
            mode,
        ),
{
    let ghost unit = pow(base as int, k as nat);
    let ghost lower = pow(base as int, (k - 1) as nat);
    let ghost whole = (magnitude as nat) / (unit as nat);
    let ghost rest = (magnitude as nat) % (unit as nat);
    proof {
        lemma_pow_positive(base as int, k as nat);
        lemma_pow_positive(base as int, (k - 1) as nat);
        assert(unit == base * lower) by {
            reveal(pow);
        }
        assert(unit >= 2 * lower) by (nonlinear_arith)
            requires
                unit == base * lower,
                base >= 2,
                lower >= 1,
        ;
    }
    match checked_power(base, k) {
        Some(fitting) => {
            let quotient = magnitude / fitting;
            let remainder = magnitude % fitting;
            let away = match mode {
                Rounding::Nearest => remainder > 0 && remainder >= fitting - remainder,
                Rounding::Up => remainder > 0 && !negative,
                Rounding::Down => remainder > 0 && negative,
            };
            assert(quotient == whole && remainder == rest);
            assert(away == rounds_away(rest, unit as nat, negative, mode));
            assert(quotient <= magnitude / 2) by (nonlinear_arith)
                requires
                    quotient == magnitude / fitting,
                    fitting >= 2,
            ;
            let lead: u128 = if away {
                quotient + 1
            } else {
                quotient
            };
            assert(lead * unit == rounded(magnitude as nat, unit as nat, negative, mode)) by {
                if away {
                    assert(lead * unit == (whole + 1) * (unit as nat));
                } else {
                    assert(lead * unit == whole * (unit as nat));
                    assert(whole * (unit as nat) >= 0) by (nonlinear_arith)
                        requires
                            unit > 0,
                    ;
                }
            }
            lead
        },
        None => {
            proof {
                lemma_basic_div(magnitude as int, unit);
                lemma_small_mod(magnitude as nat, unit as nat);
                assert(whole == 0 && rest == magnitude);
            }
            let half: Option<u128> = match checked_power(base, k - 1) {
                None => None,
                Some(fitting) => fitting.checked_mul(base / 2),
            };
            proof {
                let exact = (base / 2) * lower;
                assert(2 * exact == unit) by (nonlinear_arith)
                    requires
                        exact == (base / 2) * lower,
                        unit == base * lower,
                        base % 2 == 0,
                ;
                assert(exact >= lower) by (nonlinear_arith)
                    requires
                        exact == (base / 2) * lower,
                        base >= 2,
                        lower >= 1,
                ;
                assert(lower * (base / 2) == exact) by (nonlinear_arith)
                    requires
                        exact == (base / 2) * lower,
                ;
                assert(match half {
                    Some(h) => h == exact,
                    None => exact > u128::MAX,
                });
            }
            let away = match mode {
                Rounding::Nearest => magnitude > 0 && match half {
                    None => false,
                    Some(h) => magnitude >= h,
                },
                Rounding::Up => magnitude > 0 && !negative,
                Rounding::Down => magnitude > 0 && negative,
            };
            assert(away == rounds_away(rest, unit as nat, negative, mode));
            let lead: u128 = if away {
                1
            } else {
                0
            };
            assert(lead * unit == rounded(magnitude as nat, unit as nat, negative, mode)) by {
                if away {
                    assert((whole + 1) * (unit as nat) == unit) by (nonlinear_arith)
                        requires
                            whole == 0,
                            unit > 0,
                    ;
                    assert(1 * unit == unit);
                } else {
                    assert(whole * (unit as nat) == 0) by (nonlinear_arith)
                        requires
                            whole == 0,
                    ;
                    assert(0 * unit == 0);
                }
            }
            lead
        },
    }
}

/// The base that the flags select: `b` is binary, `o` octal, `x`
/// hexadecimal, in this order of precedence; without any of them, decimal.
pub open spec fn base_of(flags: Seq<char>) -> nat {
    if flags.contains('b') {
        2
    } else if flags.contains('o') {
        8
    } else if flags.contains('x') {
        16
    } else {
        10
    }
}

/// The base prefix that the flags select: with `p`, the prefix of the base
/// that they select, none for decimal.
pub open spec fn prefix_of(flags: Seq<char>) -> Seq<char> {
    if !flags.contains('p') {
        Seq::empty()
    } else if flags.contains('b') {
        seq!['0', 'b']
    } else if flags.contains('o') {
        seq!['0', 'o']
    } else if flags.contains('x') {
        seq!['0', 'x']
    } else {
        Seq::empty()
    }
}

/// What the option `prec` asks for: a signed decimal number that fits 32
/// bits, if the option is there.
pub open spec fn precision_of(options: Map<Seq<char>, Seq<char>>) -> Result<Option<int>, SingleFmtErrorModel> {
    if !options.contains_key("prec"@) {
        Ok(None)
    } else {
        match signed_decimal(options["prec"@]) {
            Some(p) => if i32::MIN <= p <= i32::MAX {
                Ok(Some(p))
            } else {
                Err(SingleFmtErrorModel::InvalidOptionValue("prec"@, options["prec"@]))
            },
            None => Err(SingleFmtErrorModel::InvalidOptionValue("prec"@, options["prec"@])),
        }
    }
}

/// What the option `round` asks for: `up`, `down` or `nearest`; without the
/// option, `nearest`.
pub open spec fn rounding_of(options: Map<Seq<char>, Seq<char>>) -> Result<Rounding, SingleFmtErrorModel> {
    if !options.contains_key("round"@) {
        Ok(Rounding::Nearest)
    } else if options["round"@] == "up"@ {
        Ok(Rounding::Up)
    } else if options["round"@] == "down"@ {
        Ok(Rounding::Down)
    } else if options["round"@] == "nearest"@ {
        Ok(Rounding::Nearest)
    } else {
        Err(SingleFmtErrorModel::InvalidOptionValue("round"@, options["round"@]))
    }
}

/// The magnitude that is shown: with a negative precision `-k` the
/// magnitude is rounded to a multiple of the `k`-th power of the base,
/// else it is shown as it is.
pub open spec fn shown_magnitude(
    magnitude: nat,
    negative: bool,
    base: nat,
    precision: Option<int>,
    mode: Rounding,
) -> nat {
    match precision {
        Some(p) => if p < 0 {
            rounded(magnitude, pow(base as int, (-p) as nat) as nat, negative, mode)
        } else {
            magnitude
        },
        None => magnitude,
    }
}

/// The text of the integer with the given sign and magnitude: a `-` for a
/// negative number that is not shown as zero, then the base prefix, then
/// the digits of the shown magnitude. The option `prec` is read first, then
/// the option `round`; a bad value of either fails.
pub open spec fn integer_text(
    negative: bool,
    magnitude: nat,
    flags: Seq<char>,
    options: Map<Seq<char>, Seq<char>>,
) -> Result<Seq<char>, SingleFmtErrorModel> {
    match precision_of(options) {
        Err(e) => Err(e),
        Ok(precision) => match rounding_of(options) {
            Err(e) => Err(e),
            Ok(mode) => {
                let base = base_of(flags);
                let shown = shown_magnitude(magnitude, negative, base, precision, mode);
                let sign = if negative && shown > 0 {
                    seq!['-']
                } else {
                    Seq::empty()
                };
                Ok(sign + prefix_of(flags) + digits(shown, base))
            },
        },
    }
}

/// Reads the option `prec`.
fn read_precision(options: &NameMap<String>) -> (r: Result<Option<i32>, SingleFmtError>)
    ensures
        match precision_of(texts(options@)) {
            Ok(Some(p)) => r matches Ok(Some(x)) && x == p,
            Ok(None) => r matches Ok(None),
            Err(e) => r matches Err(x) && x@ == e,
        },
{
    match options.get("prec") {
        None => Ok(None),
        Some(value) => {
            let chars = to_chars(value.as_str());
            match parse_signed(chars.as_slice()) {
                Some(p) => Ok(Some(p)),
                None => Err(SingleFmtError::InvalidOptionValue("prec".to_owned(), value.clone())),
            }
        },
    }
}

/// Reads the option `round`.
fn read_rounding(options: &NameMap<String>) -> (r: Result<Rounding, SingleFmtError>)
    ensures
        match rounding_of(texts(options@)) {
            Ok(mode) => r matches Ok(x) && x == mode,
            Err(e) => r matches Err(x) && x@ == e,
        },
{
    match options.get("round") {
        None => Ok(Rounding::Nearest),
        Some(value) => {
            if *value == "up".to_owned() {
                Ok(Rounding::Up)
            } else if *value == "down".to_owned() {
                Ok(Rounding::Down)
            } else if *value == "nearest".to_owned() {
                Ok(Rounding::Nearest)
            } else {
                Err(SingleFmtError::InvalidOptionValue("round".to_owned(), value.clone()))
            }
        },
    }
}

/// The base that the flags select.
fn select_base(flags: &[char]) -> (base: u128)
    ensures
        base == base_of(flags@),
        base >= 2,
        base <= 16,
        base % 2 == 0,
{
    if contains_char(flags, 'b') {
        2
    } else if contains_char(flags, 'o') {
        8
    } else if contains_char(flags, 'x') {
        16
    } else {
        10
    }
}

/// Appends the base prefix that the flags select.
fn push_prefix(out: &mut Vec<char>, flags: &[char])
    ensures
        final(out)@ == old(out)@ + prefix_of(flags@),
{
    if contains_char(flags, 'p') {
        if contains_char(flags, 'b') {
            out.push('0');
            out.push('b');
        } else if contains_char(flags, 'o') {
            out.push('0');
            out.push('o');
        } else if contains_char(flags, 'x') {
            out.push('0');
            out.push('x');
        }
    }
    assert(out@ =~= old(out)@ + prefix_of(flags@));
}

/// The shown magnitude as a number of units and the power of the base that
/// the unit is.
fn shown_parts(magnitude: u128, negative: bool, base: u128, precision: Option<i32>, mode: Rounding) -> (r: (
    u128,
    usize,
))
    requires
        base >= 2,
        base % 2 == 0,
    ensures
        r.0 * pow(base as int, r.1 as nat) == shown_magnitude(
            magnitude as nat,
            negative,
            base as nat,
            match precision {
                Some(p) => Some(p as int),
                None => None,
            },
            mode,
        ),
{
    proof {
        lemma_pow0(base as int);
    }
    match precision {
        Some(p) => {
            if p < 0 {
                let k: usize = (-(p as i64)) as usize;
                let lead = round_lead(magnitude, base, k, negative, mode);
                (lead, k)
            } else {
                (magnitude, 0)
            }
        },
        None => (magnitude, 0),
    }
}

/// Appends the digits of `lead` times the `trailing`-th power of `base`.
fn push_shown(out: &mut Vec<char>, lead: u128, trailing: usize, base: u128)
    requires
        2 <= base <= 16,
    ensures
        final(out)@ == old(out)@ + digits((lead * pow(base as int, trailing as nat)) as nat, base as nat),
{
    let ghost head = out@;
    proof {
        if lead == 0 {
            assert(0 * pow(base as int, trailing as nat) == 0);
        } else {
            lemma_digits_of_multiple(lead as nat, base as nat, trailing as nat);
        }
    }
    push_digits(out, lead, base);
    if lead > 0 {
        let mut i: usize = 0;
        assert(out@ =~= head + digits(lead as nat, base as nat) + zeros(0));
        while i < trailing
            invariant
                i <= trailing,
                out@ == head + digits(lead as nat, base as nat) + zeros(i as nat),
            decreases trailing - i,
        {
            out.push('0');
            assert(out@ =~= head + digits(lead as nat, base as nat) + zeros((i + 1) as nat));
            i += 1;
        }
        assert(out@ =~= head + (digits(lead as nat, base as nat) + zeros(trailing as nat)));
    }
}

/// Renders an integer, given by its sign and its magnitude: picks the base
/// and the prefix by the flags and rounds as the options `prec` and `round`
/// ask.
pub fn int_to_str(negative: bool, magnitude: u128, flags: &[char], options: &NameMap<String>) -> (r: Result<
    String,
    SingleFmtError,
>)
    ensures
        match integer_text(negative, magnitude as nat, flags@, texts(options@)) {
            Ok(text) => r matches Ok(s) && s@ == text,
            Err(e) => r matches Err(x) && x@ == e,
        },
{
    let precision = match read_precision(options) {
        Err(e) => {
            return Err(e);
        },
        Ok(precision) => precision,
    };
    let mode = match read_rounding(options) {
        Err(e) => {
            return Err(e);
        },
        Ok(mode) => mode,
    };
    let base = select_base(flags);
    let (lead, trailing) = shown_parts(magnitude, negative, base, precision, mode);
    proof {
        lemma_pow_positive(base as int, trailing as nat);
        if lead > 0 {
            assert(lead * pow(base as int, trailing as nat) > 0) by (nonlinear_arith)
                requires
                    lead > 0,
                    pow(base as int, trailing as nat) > 0,
            ;
        } else {
            assert(0 * pow(base as int, trailing as nat) == 0);
        }
    }
    let mut out: Vec<char> = Vec::new();
    if negative && lead > 0 {
        out.push('-');
    }
    let ghost sign = out@;
    push_prefix(&mut out, flags);
    push_shown(&mut out, lead, trailing, base);
    assert(sign =~= if negative && lead > 0 {
        seq!['-']
    } else {
        Seq::<char>::empty()
    });
    Ok(from_chars(out.as_slice()))
}

} // verus!
