use vstd::prelude::*;
use crate::ast::{lit_view, pr_matches, pub_matches, seg_view, EsonLiteralSegment, EsonSegment, LitV, SegV};
use crate::chars::chars_of;
use crate::error::{ParseError, Pr};

verus! {

broadcast use vstd::std_specs::vec::group_vec_axioms, vstd::seq::group_seq_axioms;

pub open spec fn kw_true(s: Seq<char>, pos: int) -> bool {
    &&& 0 <= pos
    &&& pos + 4 <= s.len()
    &&& s[pos] == 't'
    &&& s[pos + 1] == 'r'
    &&& s[pos + 2] == 'u'
    &&& s[pos + 3] == 'e'
}

pub open spec fn kw_false(s: Seq<char>, pos: int) -> bool {
    &&& 0 <= pos
    &&& pos + 5 <= s.len()
    &&& s[pos] == 'f'
    &&& s[pos + 1] == 'a'
    &&& s[pos + 2] == 'l'
    &&& s[pos + 3] == 's'
    &&& s[pos + 4] == 'e'
}

pub(crate) fn kw_true_at(inp: &Vec<char>, pos: usize) -> (r: bool)
    requires
        pos <= inp.len(),
    ensures
        r == kw_true(inp@, pos as int),
{
    inp.len() - pos >= 4 && inp[pos] == 't' && inp[pos + 1] == 'r' && inp[pos + 2] == 'u'
        && inp[pos + 3] == 'e'
}

pub(crate) fn kw_false_at(inp: &Vec<char>, pos: usize) -> (r: bool)
    requires
        pos <= inp.len(),
    ensures
        r == kw_false(inp@, pos as int),
{
    inp.len() - pos >= 5 && inp[pos] == 'f' && inp[pos + 1] == 'a' && inp[pos + 2] == 'l'
        && inp[pos + 3] == 's' && inp[pos + 4] == 'e'
}

/// A boolean literal: the keyword `true` or `false`.
pub open spec fn spec_parse_boolean(s: Seq<char>, pos: int) -> Pr<SegV> {
    if kw_true(s, pos) {
        Pr::Parsed(SegV::Boolean(true), pos + 4)
    } else if kw_false(s, pos) {
        Pr::Parsed(SegV::Boolean(false), pos + 5)
    } else {
        Pr::Soft
    }
}

pub open spec fn spec_parse_literal_boolean(s: Seq<char>, pos: int) -> Pr<LitV> {
    if kw_true(s, pos) {
        Pr::Parsed(LitV::Boolean(true), pos + 4)
    } else if kw_false(s, pos) {
        Pr::Parsed(LitV::Boolean(false), pos + 5)
    } else {
        Pr::Soft
    }
}

pub(crate) fn parse_boolean_at(inp: &Vec<char>, pos: usize) -> (r: Result<
    (EsonSegment, usize),
    ParseError,
>)
    requires
        pos <= inp.len(),
    ensures
        pr_matches(
            spec_parse_boolean(inp@, pos as int),
            r,
            |t: EsonSegment| seg_view(t),
            pos as int,
            inp@.len() as int,
        ),
{
    if kw_true_at(inp, pos) {
        Ok((EsonSegment::Boolean(true), pos + 4))
    } else if kw_false_at(inp, pos) {
        Ok((EsonSegment::Boolean(false), pos + 5))
    } else {
        Err(ParseError::soft(pos))
    }
}

pub(crate) fn parse_literal_boolean_at(inp: &Vec<char>, pos: usize) -> (r: Result<
    (EsonLiteralSegment, usize),
    ParseError,
>)
    requires
        pos <= inp.len(),
    ensures
        pr_matches(
            spec_parse_literal_boolean(inp@, pos as int),
            r,
            |t: EsonLiteralSegment| lit_view(t),
            pos as int,
            inp@.len() as int,
        ),
{
    if kw_true_at(inp, pos) {
        Ok((EsonLiteralSegment::Boolean(true), pos + 4))
    } else if kw_false_at(inp, pos) {
        Ok((EsonLiteralSegment::Boolean(false), pos + 5))
    } else {
        Err(ParseError::soft(pos))
    }
}

/// Parses the keyword `true` or `false` at the front of `i`.
pub fn parse_boolean(i: &str) -> (r: Result<(String, EsonSegment), ParseError>)
    ensures
        r is Err ==> r->Err_0.context@.len() > 0 && r->Err_0.context@.last()@
            == "parse_boolean"@,
        pub_matches(spec_parse_boolean(i@, 0), i@, r, |t: EsonSegment| seg_view(t)),
{
    let v = chars_of(i);
    match parse_boolean_at(&v, 0) {
        Ok((seg, p)) => {
            let rest = i.substring_char(p, i.unicode_len()).to_owned();
            proof {
                assert(rest@ =~= i@.skip(p as int));
            }
            Ok((rest, seg))
        },
        Err(e) => Err(e.ctx("parse_boolean")),
    }
}

/// Parses the keyword `true` or `false` at the front of `i`, as a constant.
pub fn parse_literal_boolean(i: &str) -> (r: Result<(String, EsonLiteralSegment), ParseError>)
    ensures
        r is Err ==> r->Err_0.context@.len() > 0 && r->Err_0.context@.last()@
            == "parse_literal_boolean"@,
        pub_matches(spec_parse_literal_boolean(i@, 0), i@, r, |t: EsonLiteralSegment| lit_view(t)),
{
    let v = chars_of(i);
    match parse_literal_boolean_at(&v, 0) {
        Ok((seg, p)) => {
            let rest = i.substring_char(p, i.unicode_len()).to_owned();
            proof {
                assert(rest@ =~= i@.skip(p as int));
            }
            Ok((rest, seg))
        },
        Err(e) => Err(e.ctx("parse_literal_boolean")),
    }
}

} // verus!
