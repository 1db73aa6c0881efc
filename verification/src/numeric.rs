use vstd::prelude::*;
use crate::ast::{
    lit_view, pr_matches, pub_matches, seg_view, EsonLiteralSegment, EsonSegment, FloatLit,
    FloatV, LitV, SegV,
};
use crate::chars::{
    chars_of, digits_at, digits_end, digits_val, digits_value_at, slice_chars, string_from_chars,
};
use crate::error::{ParseError, Pr};

verus! {

broadcast use vstd::std_specs::vec::group_vec_axioms, vstd::seq::group_seq_axioms;

// ---------------------------------------------------------------------------
// Keywords
// ---------------------------------------------------------------------------

pub open spec fn kw_infinity(s: Seq<char>, pos: int) -> bool {
    &&& 0 <= pos
    &&& pos + 8 <= s.len()
    &&& s[pos] == 'I'
    &&& s[pos + 1] == 'n'
    &&& s[pos + 2] == 'f'
    &&& s[pos + 3] == 'i'
    &&& s[pos + 4] == 'n'
    &&& s[pos + 5] == 'i'
    &&& s[pos + 6] == 't'
    &&& s[pos + 7] == 'y'
}

pub open spec fn kw_nan(s: Seq<char>, pos: int) -> bool {
    &&& 0 <= pos
    &&& pos + 3 <= s.len()
    &&& s[pos] == 'N'
    &&& s[pos + 1] == 'a'
    &&& s[pos + 2] == 'N'
}

fn kw_infinity_at(inp: &Vec<char>, pos: usize) -> (r: bool)
    requires
        pos <= inp.len(),
    ensures
        r == kw_infinity(inp@, pos as int),
{
    inp.len() - pos >= 8 && inp[pos] == 'I' && inp[pos + 1] == 'n' && inp[pos + 2] == 'f'
        && inp[pos + 3] == 'i' && inp[pos + 4] == 'n' && inp[pos + 5] == 'i' && inp[pos + 6] == 't'
        && inp[pos + 7] == 'y'
}

fn kw_nan_at(inp: &Vec<char>, pos: usize) -> (r: bool)
    requires
        pos <= inp.len(),
    ensures
        r == kw_nan(inp@, pos as int),
{
    inp.len() - pos >= 3 && inp[pos] == 'N' && inp[pos + 1] == 'a' && inp[pos + 2] == 'N'
}

// ---------------------------------------------------------------------------
// The numeric grammar
// ---------------------------------------------------------------------------

/// A radix-prefixed run: `0` + marker + at least one digit of the radix.
/// Yields the value and the end of the digit run.
pub open spec fn spec_radix_run(s: Seq<char>, pos: int, marker: char, radix: u32) -> Option<
    (int, int),
> {
    if 0 <= pos && pos + 2 <= s.len() && s[pos] == '0' && s[pos + 1] == marker && digits_end(
        s,
        pos + 2,
        radix,
    ) > pos + 2 {
        let de = digits_end(s, pos + 2, radix);
        Option::Some((digits_val(s, pos + 2, de, radix), de))
    } else {
        Option::None
    }
}

/// An integer outcome: parsed when the value fits the 64-bit signed range,
/// a numeric-overflow failure otherwise.
pub open spec fn spec_int_result(v: int, e: int) -> Pr<SegV> {
    if v <= i64::MAX {
        Pr::Parsed(SegV::Int(v as i64), e)
    } else {
        Pr::Over
    }
}

/// The optional fraction after the integer digits: `.` followed by at
/// least one digit.  Yields the end of the fraction digits.
pub open spec fn spec_frac_end(s: Seq<char>, de: int) -> Option<int> {
    if 0 <= de && de < s.len() && s[de] == '.' && digits_end(s, de + 1, 10) > de + 1 {
        Option::Some(digits_end(s, de + 1, 10))
    } else {
        Option::None
    }
}

/// The optional exponent: `e` or `E`, an optional sign, at least one
/// digit.  Yields the sign (defaulted to `+`), the start of the exponent
/// digits and their end.
pub open spec fn spec_exp_part(s: Seq<char>, q: int) -> Option<(char, int, int)> {
    if 0 <= q && q < s.len() && (s[q] == 'e' || s[q] == 'E') {
        let ds = if q + 1 < s.len() && (s[q + 1] == '+' || s[q + 1] == '-') {
            q + 2
        } else {
            q + 1
        };
        let sign = if q + 1 < s.len() && s[q + 1] == '-' {
            '-'
        } else {
            '+'
        };
        if digits_end(s, ds, 10) > ds {
            Option::Some((sign, ds, digits_end(s, ds, 10)))
        } else {
            Option::None
        }
    } else {
        Option::None
    }
}

/// The text a float literal is normalised to: the integer digits, the
/// fraction with its dot if present, and the exponent with a lower-case
/// `e` and an explicit sign if present.
pub open spec fn spec_float_text(
    s: Seq<char>,
    pos: int,
    de: int,
    frac: Option<int>,
    exp: Option<(char, int, int)>,
) -> Seq<char> {
    let base = s.subrange(pos, de);
    let with_frac = match frac {
        Option::Some(fe) => base + seq!['.'] + s.subrange(de + 1, fe),
        Option::None => base,
    };
    match exp {
        Option::Some((sign, ds, ee)) => with_frac + seq!['e'] + seq![sign] + s.subrange(ds, ee),
        Option::None => with_frac,
    }
}

/// The numeric scanner: radix-prefixed integers first, then decimal with
/// optional fraction and exponent (a decimal with neither is an integer,
/// anything else a float kept as text), then the keywords `Infinity`,
/// `-Infinity` and `NaN`.  An integer out of the 64-bit signed range is a
/// numeric-overflow failure, not a panic.
pub open spec fn spec_parse_numeric(s: Seq<char>, pos: int) -> Pr<SegV> {
    if spec_radix_run(s, pos, 'b', 2) is Some {
        let (v, e) = spec_radix_run(s, pos, 'b', 2)->0;
        spec_int_result(v, e)
    } else if spec_radix_run(s, pos, 'o', 8) is Some {
        let (v, e) = spec_radix_run(s, pos, 'o', 8)->0;
        spec_int_result(v, e)
    } else if spec_radix_run(s, pos, 'x', 16) is Some {
        let (v, e) = spec_radix_run(s, pos, 'x', 16)->0;
        spec_int_result(v, e)
    } else if 0 <= pos && digits_end(s, pos, 10) > pos {
        let de = digits_end(s, pos, 10);
        let frac = spec_frac_end(s, de);
        let q = match frac {
            Option::Some(fe) => fe,
            Option::None => de,
        };
        let exp = spec_exp_part(s, q);
        match (frac, exp) {
            (Option::None, Option::None) => spec_int_result(digits_val(s, pos, de, 10), de),
            (_, Option::Some((sign, ds, ee))) => Pr::Parsed(
                SegV::Float(FloatV::Dec(spec_float_text(s, pos, de, frac, exp))),
                ee,
            ),
            (_, Option::None) => Pr::Parsed(
                SegV::Float(FloatV::Dec(spec_float_text(s, pos, de, frac, exp))),
                q,
            ),
        }
    } else if kw_infinity(s, pos) {
        Pr::Parsed(SegV::Float(FloatV::Infinity), pos + 8)
    } else if 0 <= pos && pos < s.len() && s[pos] == '-' && kw_infinity(s, pos + 1) {
        Pr::Parsed(SegV::Float(FloatV::NegInfinity), pos + 9)
    } else if kw_nan(s, pos) {
        Pr::Parsed(SegV::Float(FloatV::NaN), pos + 3)
    } else {
        Pr::Soft
    }
}

/// The same scanner in the constant grammar: the value is a constant.
pub open spec fn spec_parse_literal_number(s: Seq<char>, pos: int) -> Pr<LitV> {
    match spec_parse_numeric(s, pos) {
        Pr::Parsed(v, p) => match v {
            SegV::Int(i) => Pr::Parsed(LitV::Int(i), p),
            SegV::Float(f) => Pr::Parsed(LitV::Float(f), p),
            _ => Pr::Soft,
        },
        Pr::Soft => Pr::Soft,
        Pr::Hard => Pr::Hard,
        Pr::Over => Pr::Over,
    }
}

// ---------------------------------------------------------------------------
// Executable scanners
// ---------------------------------------------------------------------------

fn radix_run_at(inp: &Vec<char>, pos: usize, marker: char, radix: u32) -> (r: Option<
    (Option<i64>, usize),
>)
    requires
        pos <= inp.len(),
        radix == 2 || radix == 8 || radix == 16,
    ensures
        r is None ==> spec_radix_run(inp@, pos as int, marker, radix) is None,
        r is Some ==> {
            let (v, e) = spec_radix_run(inp@, pos as int, marker, radix)->0;
            let (rv, re) = r->0;
            &&& spec_radix_run(inp@, pos as int, marker, radix) is Some
            &&& re == e
            &&& pos < e <= inp.len()
            &&& (rv is Some) == (v <= i64::MAX)
            &&& (rv is Some ==> rv->0 == v)
        },
{
    if inp.len() - pos >= 2 && inp[pos] == '0' && inp[pos + 1] == marker {
        let de = digits_at(inp, pos + 2, radix);
        if de > pos + 2 {
            let v = digits_value_at(inp, pos + 2, de, radix);
            Some((v, de))
        } else {
            None
        }
    } else {
        None
    }
}

#[verifier::rlimit(100)]
pub(crate) fn parse_numeric_at(inp: &Vec<char>, pos: usize) -> (r: Result<
    (EsonSegment, usize),
    ParseError,
>)
    requires
        pos <= inp.len(),
    ensures
        pr_matches(
            spec_parse_numeric(inp@, pos as int),
            r,
            |t: EsonSegment| seg_view(t),
            pos as int,
            inp@.len() as int,
        ),
{
    if let Some((v, e)) = radix_run_at(inp, pos, 'b', 2) {
        match v {
            Some(i) => Ok((EsonSegment::Int(i), e)),
            None => Err(ParseError::overflow(pos)),
        }
    } else if let Some((v, e)) = radix_run_at(inp, pos, 'o', 8) {
        match v {
            Some(i) => Ok((EsonSegment::Int(i), e)),
            None => Err(ParseError::overflow(pos)),
        }
    } else if let Some((v, e)) = radix_run_at(inp, pos, 'x', 16) {
        match v {
            Some(i) => Ok((EsonSegment::Int(i), e)),
            None => Err(ParseError::overflow(pos)),
        }
    } else {
        let de = digits_at(inp, pos, 10);
        if de > pos {
            // fraction: `.` followed by at least one digit
            let frac: Option<usize> = if de < inp.len() && inp[de] == '.' {
                let fe = digits_at(inp, de + 1, 10);
                if fe > de + 1 {
                    Some(fe)
                } else {
                    None
                }
            } else {
                None
            };
            let q = match frac {
                Some(fe) => fe,
                None => de,
            };
            // exponent: `e`/`E`, optional sign, at least one digit
            let mut exp: Option<(char, usize, usize)> = None;
            if q < inp.len() && (inp[q] == 'e' || inp[q] == 'E') {
                let ds = if q + 1 < inp.len() && (inp[q + 1] == '+' || inp[q + 1] == '-') {
                    q + 2
                } else {
                    q + 1
                };
                let sign = if q + 1 < inp.len() && inp[q + 1] == '-' {
                    '-'
                } else {
                    '+'
                };
                let ee = digits_at(inp, ds, 10);
                if ee > ds {
                    exp = Some((sign, ds, ee));
                }
            }
            proof {
                assert(frac is Some ==> frac->0 == spec_frac_end(inp@, de as int)->0);
                assert((frac is Some) == (spec_frac_end(inp@, de as int) is Some));
            }
            if frac.is_none() && exp.is_none() {
                match digits_value_at(inp, pos, de, 10) {
                    Some(i) => Ok((EsonSegment::Int(i), de)),
                    None => Err(ParseError::overflow(pos)),
                }
            } else {
                let mut txt = slice_chars(inp, pos, de);
                if let Some(fe) = frac {
                    txt.push('.');
                    let mut fr = slice_chars(inp, de + 1, fe);
                    txt.append(&mut fr);
                }
                let end: usize = match exp {
                    Some((sign, ds, ee)) => {
                        txt.push('e');
                        txt.push(sign);
                        let mut ex = slice_chars(inp, ds, ee);
                        txt.append(&mut ex);
                        ee
                    },
                    None => q,
                };
                proof {
                    assert(txt@ =~= spec_float_text(
                        inp@,
                        pos as int,
                        de as int,
                        if frac is Some {
                            Option::Some(frac->0 as int)
                        } else {
                            Option::None
                        },
                        spec_exp_part(inp@, q as int),
                    ));
                }
                let f = FloatLit::Dec(string_from_chars(&txt));
                Ok((EsonSegment::Float(f), end))
            }
        } else if kw_infinity_at(inp, pos) {
            Ok((EsonSegment::Float(FloatLit::Infinity), pos + 8))
        } else if pos < inp.len() && inp[pos] == '-' && kw_infinity_at(inp, pos + 1) {
            Ok((EsonSegment::Float(FloatLit::NegInfinity), pos + 9))
        } else if kw_nan_at(inp, pos) {
            Ok((EsonSegment::Float(FloatLit::NaN), pos + 3))
        } else {
            Err(ParseError::soft(pos))
        }
    }
}

pub(crate) fn parse_literal_number_at(inp: &Vec<char>, pos: usize) -> (r: Result<
    (EsonLiteralSegment, usize),
    ParseError,
>)
    requires
        pos <= inp.len(),
    ensures
        pr_matches(
            spec_parse_literal_number(inp@, pos as int),
            r,
            |t: EsonLiteralSegment| lit_view(t),
            pos as int,
            inp@.len() as int,
        ),
{
    match parse_numeric_at(inp, pos) {
        Ok((seg, p)) => match seg {
            EsonSegment::Int(i) => Ok((EsonLiteralSegment::Int(i), p)),
            EsonSegment::Float(f) => Ok((EsonLiteralSegment::Float(f), p)),
            _ => {
                proof {
                    assert(false);
                }
                Err(ParseError::soft(pos))
            },
        },
        Err(e) => Err(e),
    }
}

// ---------------------------------------------------------------------------
// Entry point on text
// ---------------------------------------------------------------------------

/// Parses one numeric literal at the front of `i` and returns the
/// remaining text with the constant parsed: a radix-prefixed or plain
/// decimal integer, a float kept as its normalised text, or one of the
/// keywords `Infinity`, `-Infinity`, `NaN`.
pub fn parse_literal_number(i: &str) -> (r: Result<(String, EsonLiteralSegment), ParseError>)
    ensures
        r is Err ==> r->Err_0.context@.len() > 0 && r->Err_0.context@.last()@
            == "parse_literal_number"@,
        pub_matches(
            spec_parse_literal_number(i@, 0),
            i@,
            r,
            |t: EsonLiteralSegment| lit_view(t),
        ),
{
    let v = chars_of(i);
    match parse_literal_number_at(&v, 0) {
        Ok((seg, p)) => {
            let rest = i.substring_char(p, i.unicode_len()).to_owned();
            proof {
                assert(rest@ =~= i@.skip(p as int));
            }
            Ok((rest, seg))
        },
        Err(e) => Err(e.ctx("parse_literal_number")),
    }
}

} // verus!
