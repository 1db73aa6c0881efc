use vstd::prelude::*;
use crate::ast::{
    ann_view, anns_view, lit_view, lits_view, pr_matches, pub_matches, AnnV, Annotation,
    EsonLiteralSegment, LitV,
};
use crate::chars::{
    chars_of, legal_id_at, slice_chars, spec_legal_id, string_from_chars, ws_at, ws_end,
    ws_no_br_at, ws_no_br_end,
};
use crate::comments::{sp_at, spec_sp};
use crate::error::{ParseError, Pr};

verus! {

broadcast use
    vstd::std_specs::vec::group_vec_axioms,
    vstd::seq::group_seq_axioms,
    crate::chars::lemma_ws_end_le,
    crate::chars::lemma_ws_no_br_end_le,
    crate::chars::lemma_id_end_le,
    crate::comments::lemma_spec_sp_le;

// ---------------------------------------------------------------------------
// Annotation arguments
// ---------------------------------------------------------------------------

/// The comma-separated constant arguments of an annotation; may be empty.
pub open spec fn spec_ann_args(s: Seq<char>, pos: int) -> Pr<Seq<LitV>>
    decreases s.len() - pos, 110int,
{
    match crate::spec_eson_literal(s, pos) {
        Pr::Soft => Pr::Parsed(Seq::empty(), pos),
        Pr::Hard => Pr::Hard,
        Pr::Over => Pr::Over,
        Pr::Parsed(v, e) => if pos < e <= s.len() {
            match spec_ann_more(s, e) {
                Pr::Parsed(rest, e2) => Pr::Parsed(seq![v] + rest, e2),
                Pr::Soft => Pr::Soft,
                Pr::Hard => Pr::Hard,
                Pr::Over => Pr::Over,
            }
        } else {
            Pr::Parsed(Seq::empty(), pos)
        },
    }
}

/// Further arguments: `, constant` repeated; a comma not followed by a
/// constant is left unconsumed.
pub open spec fn spec_ann_more(s: Seq<char>, pos: int) -> Pr<Seq<LitV>>
    decreases s.len() - pos, 120int,
{
    let q = ws_end(s, pos);
    if 0 <= q && q < s.len() && s[q] == ',' {
        let q2 = ws_end(s, q + 1);
        match crate::spec_eson_literal(s, q2) {
            Pr::Soft => Pr::Parsed(Seq::empty(), pos),
            Pr::Hard => Pr::Hard,
            Pr::Over => Pr::Over,
            Pr::Parsed(v, e) => if pos < e <= s.len() {
                match spec_ann_more(s, e) {
                    Pr::Parsed(rest, e2) => Pr::Parsed(seq![v] + rest, e2),
                    Pr::Soft => Pr::Soft,
                    Pr::Hard => Pr::Hard,
                    Pr::Over => Pr::Over,
                }
            } else {
                Pr::Parsed(Seq::empty(), pos)
            },
        }
    } else {
        Pr::Parsed(Seq::empty(), pos)
    }
}

#[verifier::rlimit(100)]
fn ann_args_at(inp: &Vec<char>, pos: usize) -> (r: Result<
    (Vec<EsonLiteralSegment>, usize),
    ParseError,
>)
    requires
        pos <= inp.len(),
    ensures
        spec_ann_args(inp@, pos as int) matches Pr::Parsed(args, e) ==> r is Ok && lits_view(
            r->Ok_0.0@,
        ) == args && r->Ok_0.1 == e && pos <= e <= inp.len(),
        spec_ann_args(inp@, pos as int) is Soft ==> r is Err && !r->Err_0.committed && r->Err_0.kind == crate::error::ErrorKind::Syntax,
        spec_ann_args(inp@, pos as int) is Hard ==> r is Err && r->Err_0.committed
            && r->Err_0.kind == crate::error::ErrorKind::Syntax,
        spec_ann_args(inp@, pos as int) is Over ==> r is Err && r->Err_0.committed
            && r->Err_0.kind == crate::error::ErrorKind::Overflow,
    decreases inp@.len() - pos, 110int,
{
    match crate::eson_literal_at(inp, pos) {
        Err(e) => {
            if e.committed {
                Err(e)
            } else {
                Ok((Vec::new(), pos))
            }
        },
        Ok((v, e)) => {
            let ghost vg = v;
            if e <= pos {
                return Ok((Vec::new(), pos));
            }
            match ann_more_at(inp, e) {
                Err(e2) => Err(e2),
                Ok((rest, e2)) => {
                    let ghost restg = rest@;
                    let mut out: Vec<EsonLiteralSegment> = Vec::new();
                    out.push(v);
                    let mut rest2 = rest;
                    out.append(&mut rest2);
                    proof {
                        assert(out@ =~= seq![vg] + restg);
                        assert(lits_view(out@) =~= seq![lit_view(vg)] + lits_view(restg));
                    }
                    Ok((out, e2))
                },
            }
        },
    }
}

fn ann_more_at(inp: &Vec<char>, pos: usize) -> (r: Result<
    (Vec<EsonLiteralSegment>, usize),
    ParseError,
>)
    requires
        pos <= inp.len(),
    ensures
        spec_ann_more(inp@, pos as int) matches Pr::Parsed(args, e) ==> r is Ok && lits_view(
            r->Ok_0.0@,
        ) == args && r->Ok_0.1 == e && pos <= e <= inp.len(),
        spec_ann_more(inp@, pos as int) is Soft ==> r is Err && !r->Err_0.committed && r->Err_0.kind == crate::error::ErrorKind::Syntax,
        spec_ann_more(inp@, pos as int) is Hard ==> r is Err && r->Err_0.committed
            && r->Err_0.kind == crate::error::ErrorKind::Syntax,
        spec_ann_more(inp@, pos as int) is Over ==> r is Err && r->Err_0.committed
            && r->Err_0.kind == crate::error::ErrorKind::Overflow,
    decreases inp@.len() - pos, 120int,
{
    let q = ws_at(inp, pos);
    if q < inp.len() && inp[q] == ',' {
        let q2 = ws_at(inp, q + 1);
        match crate::eson_literal_at(inp, q2) {
            Err(e) => {
                if e.committed {
                    Err(e)
                } else {
                    Ok((Vec::new(), pos))
                }
            },
            Ok((v, e)) => {
                let ghost vg = v;
                if e <= pos {
                    return Ok((Vec::new(), pos));
                }
                match ann_more_at(inp, e) {
                    Err(e2) => Err(e2),
                    Ok((rest, e2)) => {
                        let ghost restg = rest@;
                        let mut out: Vec<EsonLiteralSegment> = Vec::new();
                        out.push(v);
                        let mut rest2 = rest;
                        out.append(&mut rest2);
                        proof {
                            assert(out@ =~= seq![vg] + restg);
                            assert(lits_view(out@) =~= seq![lit_view(vg)] + lits_view(restg));
                        }
                        Ok((out, e2))
                    },
                }
            },
        }
    } else {
        Ok((Vec::new(), pos))
    }
}

// ---------------------------------------------------------------------------
// One annotation
// ---------------------------------------------------------------------------

/// One annotation: `@` and an identifier, optionally followed by a
/// parenthesised constant list.  A malformed argument group is not an
/// error: the bare form is kept and the group left unconsumed.  Around the
/// header only newline-free whitespace is skipped, so that a line break
/// keeps its meaning as a separator.
pub open spec fn spec_annotation(s: Seq<char>, pos: int) -> Pr<AnnV>
    decreases s.len() - pos, 130int,
{
    if 0 <= pos && pos < s.len() && s[pos] == '@' {
        match spec_legal_id(s, pos + 1) {
            Option::None => Pr::Soft,
            Option::Some(ie) => {
                let name = s.subrange(pos + 1, ie);
                let q = ws_no_br_end(s, ie);
                if q < s.len() && s[q] == '(' {
                    let q3 = ws_no_br_end(s, q + 1);
                    let q4 = ws_end(s, q3);
                    match spec_ann_args(s, q4) {
                        Pr::Parsed(args, e) => {
                            let q5 = ws_end(s, e);
                            if 0 <= q5 && q5 < s.len() && s[q5] == ')' {
                                Pr::Parsed(
                                    AnnV { name, value: Option::Some(args) },
                                    ws_no_br_end(s, q5 + 1),
                                )
                            } else {
                                Pr::Parsed(AnnV { name, value: Option::None }, q)
                            }
                        },
                        Pr::Soft => Pr::Parsed(AnnV { name, value: Option::None }, q),
                        Pr::Hard => Pr::Hard,
                        Pr::Over => Pr::Over,
                    }
                } else {
                    Pr::Parsed(AnnV { name, value: Option::None }, q)
                }
            },
        }
    } else {
        Pr::Soft
    }
}

pub(crate) fn annotation_at(inp: &Vec<char>, pos: usize) -> (r: Result<
    (Annotation, usize),
    ParseError,
>)
    requires
        pos <= inp.len(),
    ensures
        pr_matches(
            spec_annotation(inp@, pos as int),
            r,
            |t: Annotation| ann_view(t),
            pos as int,
            inp@.len() as int,
        ),
    decreases inp@.len() - pos, 130int,
{
    if pos < inp.len() && inp[pos] == '@' {
        match legal_id_at(inp, pos + 1) {
            None => Err(ParseError::soft(pos)),
            Some(ie) => {
                let name_v = slice_chars(inp, pos + 1, ie);
                let name = string_from_chars(&name_v);
                let q = ws_no_br_at(inp, ie);
                if q < inp.len() && inp[q] == '(' {
                    let q3 = ws_no_br_at(inp, q + 1);
                    let q4 = ws_at(inp, q3);
                    match ann_args_at(inp, q4) {
                        Ok((args, e)) => {
                            let q5 = ws_at(inp, e);
                            if q5 < inp.len() && inp[q5] == ')' {
                                Ok((
                                    Annotation { name, value: Some(args) },
                                    ws_no_br_at(inp, q5 + 1),
                                ))
                            } else {
                                Ok((Annotation { name, value: None }, q))
                            }
                        },
                        Err(e) => {
                            if e.committed {
                                Err(e)
                            } else {
                                Ok((Annotation { name, value: None }, q))
                            }
                        },
                    }
                } else {
                    Ok((Annotation { name, value: None }, q))
                }
            },
        }
    } else {
        Err(ParseError::soft(pos))
    }
}

// ---------------------------------------------------------------------------
// A run of annotations
// ---------------------------------------------------------------------------

/// A run of annotations, each surrounded by skippable whitespace and
/// comments; stops before the first thing that is not an annotation,
/// consuming nothing of it.  Never fails softly: zero annotations is a
/// valid outcome.
pub open spec fn spec_ann_list(s: Seq<char>, pos: int) -> Pr<Seq<AnnV>>
    decreases s.len() - pos, 140int,
{
    let a = spec_sp(s, pos);
    match spec_annotation(s, a) {
        Pr::Soft => Pr::Parsed(Seq::empty(), pos),
        Pr::Hard => Pr::Hard,
        Pr::Over => Pr::Over,
        Pr::Parsed(ann, e) => if pos < e <= s.len() {
            let e2 = spec_sp(s, e);
            match spec_ann_list(s, e2) {
                Pr::Parsed(rest, e3) => Pr::Parsed(seq![ann] + rest, e3),
                Pr::Soft => Pr::Soft,
                Pr::Hard => Pr::Hard,
                Pr::Over => Pr::Over,
            }
        } else {
            Pr::Parsed(Seq::empty(), pos)
        },
    }
}

/// The annotation run of a key: leading whitespace, then annotations.
pub open spec fn spec_parse_annotations(s: Seq<char>, pos: int) -> Pr<Seq<AnnV>>
    decreases s.len() - pos, 150int,
{
    let p1 = ws_end(s, pos);
    spec_ann_list(s, p1)
}

#[verifier::rlimit(100)]
fn ann_list_at(inp: &Vec<char>, pos: usize) -> (r: Result<(Vec<Annotation>, usize), ParseError>)
    requires
        pos <= inp.len(),
    ensures
        spec_ann_list(inp@, pos as int) matches Pr::Parsed(anns, e) ==> r is Ok && anns_view(
            r->Ok_0.0@,
        ) == anns && r->Ok_0.1 == e && pos <= e <= inp.len(),
        spec_ann_list(inp@, pos as int) is Soft ==> r is Err && !r->Err_0.committed && r->Err_0.kind == crate::error::ErrorKind::Syntax,
        spec_ann_list(inp@, pos as int) is Hard ==> r is Err && r->Err_0.committed
            && r->Err_0.kind == crate::error::ErrorKind::Syntax,
        spec_ann_list(inp@, pos as int) is Over ==> r is Err && r->Err_0.committed
            && r->Err_0.kind == crate::error::ErrorKind::Overflow,
    decreases inp@.len() - pos, 140int,
{
    let a = sp_at(inp, pos);
    match annotation_at(inp, a) {
        Err(e) => {
            if e.committed {
                Err(e)
            } else {
                Ok((Vec::new(), pos))
            }
        },
        Ok((ann, e)) => {
            let ghost ag = ann;
            if e <= pos {
                return Ok((Vec::new(), pos));
            }
            let e2 = sp_at(inp, e);
            match ann_list_at(inp, e2) {
                Err(e3) => Err(e3),
                Ok((rest, e3)) => {
                    let ghost restg = rest@;
                    let mut out: Vec<Annotation> = Vec::new();
                    out.push(ann);
                    let mut rest2 = rest;
                    out.append(&mut rest2);
                    proof {
                        assert(out@ =~= seq![ag] + restg);
                        assert(anns_view(out@) =~= seq![ann_view(ag)] + anns_view(restg));
                    }
                    Ok((out, e3))
                },
            }
        },
    }
}

pub(crate) fn parse_annotations_at(inp: &Vec<char>, pos: usize) -> (r: Result<
    (Vec<Annotation>, usize),
    ParseError,
>)
    requires
        pos <= inp.len(),
    ensures
        spec_parse_annotations(inp@, pos as int) matches Pr::Parsed(anns, e) ==> r is Ok
            && anns_view(r->Ok_0.0@) == anns && r->Ok_0.1 == e && pos <= e <= inp.len(),
        spec_parse_annotations(inp@, pos as int) is Soft ==> r is Err && !r->Err_0.committed && r->Err_0.kind == crate::error::ErrorKind::Syntax,
        spec_parse_annotations(inp@, pos as int) is Hard ==> r is Err && r->Err_0.committed
            && r->Err_0.kind == crate::error::ErrorKind::Syntax,
        spec_parse_annotations(inp@, pos as int) is Over ==> r is Err && r->Err_0.committed
            && r->Err_0.kind == crate::error::ErrorKind::Overflow,
    decreases inp@.len() - pos, 150int,
{
    let p1 = ws_at(inp, pos);
    ann_list_at(inp, p1)
}

// ---------------------------------------------------------------------------
// Entry points on text
// ---------------------------------------------------------------------------

/// Parses one annotation at the front of `i`: `@name`, `@name()` or
/// `@name(constant, ...)`.
pub fn annotation(i: &str) -> (r: Result<(String, Annotation), ParseError>)
    ensures
        r is Err ==> r->Err_0.context@.len() > 0 && r->Err_0.context@.last()@
            == "annotation"@,
        pub_matches(spec_annotation(i@, 0), i@, r, |t: Annotation| ann_view(t)),
{
    let v = chars_of(i);
    match annotation_at(&v, 0) {
        Ok((a, p)) => {
            let rest = i.substring_char(p, i.unicode_len()).to_owned();
            proof {
                assert(rest@ =~= i@.skip(p as int));
            }
            Ok((rest, a))
        },
        Err(e) => Err(e.ctx("annotation")),
    }
}

/// Parses a run of annotations at the front of `i`, separated by
/// whitespace and comments; zero annotations succeed with an empty list.
pub fn parse_annotations(i: &str) -> (r: Result<(String, Vec<Annotation>), ParseError>)
    ensures
        r is Err ==> r->Err_0.context@.len() > 0 && r->Err_0.context@.last()@
            == "parse_annotations"@,
        spec_parse_annotations(i@, 0) matches Pr::Parsed(anns, e) ==> r is Ok && anns_view(
            r->Ok_0.1@,
        ) == anns && r->Ok_0.0@ == i@.skip(e),
        spec_parse_annotations(i@, 0) is Hard ==> r is Err && r->Err_0.committed,
        spec_parse_annotations(i@, 0) is Over ==> r is Err && r->Err_0.committed
            && r->Err_0.kind == crate::error::ErrorKind::Overflow,
{
    let v = chars_of(i);
    match parse_annotations_at(&v, 0) {
        Ok((anns, p)) => {
            let rest = i.substring_char(p, i.unicode_len()).to_owned();
            proof {
                assert(rest@ =~= i@.skip(p as int));
            }
            Ok((rest, anns))
        },
        Err(e) => Err(e.ctx("parse_annotations")),
    }
}

/// Skips whitespace other than newlines at the front of `i`; never fails.
pub fn sp_without_br0(i: &str) -> (r: (String, String))
    ensures
        r.0@ == i@.skip(ws_no_br_end(i@, 0)),
        r.1@ == Seq::<char>::empty(),
{
    let v = chars_of(i);
    let e = ws_no_br_at(&v, 0);
    let rest = i.substring_char(e, i.unicode_len()).to_owned();
    proof {
        assert(rest@ =~= i@.skip(ws_no_br_end(i@, 0)));
    }
    (rest, String::new())
}

} // verus!
