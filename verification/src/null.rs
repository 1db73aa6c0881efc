use vstd::prelude::*;
use crate::ast::{lit_view, pr_matches, pub_matches, seg_view, EsonLiteralSegment, EsonSegment, LitV, SegV};
use crate::chars::chars_of;
use crate::error::{ParseError, Pr};

verus! {

broadcast use vstd::std_specs::vec::group_vec_axioms, vstd::seq::group_seq_axioms;

pub open spec fn kw_null(s: Seq<char>, pos: int) -> bool {
    &&& 0 <= pos
    &&& pos + 4 <= s.len()
    &&& s[pos] == 'n'
    &&& s[pos + 1] == 'u'
    &&& s[pos + 2] == 'l'
    &&& s[pos + 3] == 'l'
}

pub(crate) fn kw_null_at(inp: &Vec<char>, pos: usize) -> (r: bool)
    requires
        pos <= inp.len(),
    ensures
        r == kw_null(inp@, pos as int),
{
    inp.len() - pos >= 4 && inp[pos] == 'n' && inp[pos + 1] == 'u' && inp[pos + 2] == 'l'
        && inp[pos + 3] == 'l'
}

/// The null literal: the keyword `null`.
pub open spec fn spec_parse_null(s: Seq<char>, pos: int) -> Pr<SegV> {
    if kw_null(s, pos) {
        Pr::Parsed(SegV::Null, pos + 4)
    } else {
        Pr::Soft
    }
}

pub open spec fn spec_parse_literal_null(s: Seq<char>, pos: int) -> Pr<LitV> {
    if kw_null(s, pos) {
        Pr::Parsed(LitV::Null, pos + 4)
    } else {
        Pr::Soft
    }
}

pub(crate) fn parse_null_at(inp: &Vec<char>, pos: usize) -> (r: Result<
    (EsonSegment, usize),
    ParseError,
>)
    requires
        pos <= inp.len(),
    ensures
        pr_matches(
            spec_parse_null(inp@, pos as int),
            r,
            |t: EsonSegment| seg_view(t),
            pos as int,
            inp@.len() as int,
        ),
{
    if kw_null_at(inp, pos) {
        Ok((EsonSegment::Null, pos + 4))
    } else {
        Err(ParseError::soft(pos))
    }
}

pub(crate) fn parse_literal_null_at(inp: &Vec<char>, pos: usize) -> (r: Result<
    (EsonLiteralSegment, usize),
    ParseError,
>)
    requires
        pos <= inp.len(),
    ensures
        pr_matches(
            spec_parse_literal_null(inp@, pos as int),
            r,
            |t: EsonLiteralSegment| lit_view(t),
            pos as int,
            inp@.len() as int,
        ),
{
    if kw_null_at(inp, pos) {
        Ok((EsonLiteralSegment::Null, pos + 4))
    } else {
        Err(ParseError::soft(pos))
    }
}

/// Parses the keyword `null` at the front of `i`.
pub fn parse_null(i: &str) -> (r: Result<(String, EsonSegment), ParseError>)
    ensures
        r is Err ==> r->Err_0.context@.len() > 0 && r->Err_0.context@.last()@
            == "parse_null"@,
        pub_matches(spec_parse_null(i@, 0), i@, r, |t: EsonSegment| seg_view(t)),
{
    let v = chars_of(i);
    match parse_null_at(&v, 0) {
        Ok((seg, p)) => {
            let rest = i.substring_char(p, i.unicode_len()).to_owned();
            proof {
                assert(rest@ =~= i@.skip(p as int));
            }
            Ok((rest, seg))
        },
        Err(e) => Err(e.ctx("parse_null")),
    }
}

/// Parses the keyword `null` at the front of `i`, as a constant.
pub fn parse_literal_null(i: &str) -> (r: Result<(String, EsonLiteralSegment), ParseError>)
    ensures
        r is Err ==> r->Err_0.context@.len() > 0 && r->Err_0.context@.last()@
            == "parse_literal_null"@,
        pub_matches(spec_parse_literal_null(i@, 0), i@, r, |t: EsonLiteralSegment| lit_view(t)),
{
    let v = chars_of(i);
    match parse_literal_null_at(&v, 0) {
        Ok((seg, p)) => {
            let rest = i.substring_char(p, i.unicode_len()).to_owned();
            proof {
                assert(rest@ =~= i@.skip(p as int));
            }
            Ok((rest, seg))
        },
        Err(e) => Err(e.ctx("parse_literal_null")),
    }
}

} // verus!
