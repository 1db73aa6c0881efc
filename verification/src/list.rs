use vstd::prelude::*;
use crate::ast::{
    lit_view, lits_view, seg_view, segs_view, EsonLiteralSegment, EsonSegment, LitV, SegV,
};
use crate::chars::chars_of;
use crate::comments::{sp_at, spec_sp};
use crate::error::{ParseError, Pr};

verus! {

broadcast use
    vstd::std_specs::vec::group_vec_axioms,
    vstd::seq::group_seq_axioms,
    crate::chars::lemma_ws_end_le,
    crate::comments::lemma_spec_sp_le;

// ---------------------------------------------------------------------------
// List elements
// ---------------------------------------------------------------------------

/// The comma-separated elements of a list; may be empty.
pub open spec fn spec_lst_items(s: Seq<char>, pos: int) -> Pr<Seq<SegV>>
    decreases s.len() - pos, 180int,
{
    match crate::spec_eson(s, pos) {
        Pr::Soft => Pr::Parsed(Seq::empty(), pos),
        Pr::Hard => Pr::Hard,
        Pr::Over => Pr::Over,
        Pr::Parsed(v, e) => if pos < e <= s.len() {
            match spec_lst_more(s, e) {
                Pr::Parsed(rest, e2) => Pr::Parsed(seq![v] + rest, e2),
                Pr::Soft => Pr::Soft,
                Pr::Hard => Pr::Hard,
                Pr::Over => Pr::Over,
            }
        } else {
            Pr::Parsed(Seq::empty(), pos)
        },
    }
}

/// Further elements: `, value` repeated; a comma not followed by a value
/// is left unconsumed.
pub open spec fn spec_lst_more(s: Seq<char>, pos: int) -> Pr<Seq<SegV>>
    decreases s.len() - pos, 190int,
{
    let q = spec_sp(s, pos);
    if 0 <= q && q < s.len() && s[q] == ',' {
        match crate::spec_eson(s, q + 1) {
            Pr::Soft => Pr::Parsed(Seq::empty(), pos),
            Pr::Hard => Pr::Hard,
            Pr::Over => Pr::Over,
            Pr::Parsed(v, e) => if pos < e <= s.len() {
                match spec_lst_more(s, e) {
                    Pr::Parsed(rest, e2) => Pr::Parsed(seq![v] + rest, e2),
                    Pr::Soft => Pr::Soft,
                    Pr::Hard => Pr::Hard,
                    Pr::Over => Pr::Over,
                }
            } else {
                Pr::Parsed(Seq::empty(), pos)
            },
        }
    } else {
        Pr::Parsed(Seq::empty(), pos)
    }
}

fn lst_items_at(inp: &Vec<char>, pos: usize) -> (r: Result<(Vec<EsonSegment>, usize), ParseError>)
    requires
        pos <= inp.len(),
    ensures
        spec_lst_items(inp@, pos as int) matches Pr::Parsed(elems, e) ==> r is Ok && segs_view(
            r->Ok_0.0@,
        ) == elems && r->Ok_0.1 == e && pos <= e <= inp.len(),
        spec_lst_items(inp@, pos as int) is Soft ==> r is Err && !r->Err_0.committed && r->Err_0.kind == crate::error::ErrorKind::Syntax,
        spec_lst_items(inp@, pos as int) is Hard ==> r is Err && r->Err_0.committed
            && r->Err_0.kind == crate::error::ErrorKind::Syntax,
        spec_lst_items(inp@, pos as int) is Over ==> r is Err && r->Err_0.committed
            && r->Err_0.kind == crate::error::ErrorKind::Overflow,
    decreases inp@.len() - pos, 180int,
{
    match crate::eson_at(inp, pos) {
        Err(e) => {
            if e.committed {
                Err(e)
            } else {
                Ok((Vec::new(), pos))
            }
        },
        Ok((v, e)) => {
            let ghost vg = v;
            if e <= pos {
                return Ok((Vec::new(), pos));
            }
            match lst_more_at(inp, e) {
                Err(e2) => Err(e2),
                Ok((rest, e2)) => {
                    let ghost restg = rest@;
                    let mut out: Vec<EsonSegment> = Vec::new();
                    out.push(v);
                    let mut rest2 = rest;
                    out.append(&mut rest2);
                    proof {
                        assert(out@ =~= seq![vg] + restg);
                        assert(segs_view(out@) =~= seq![seg_view(vg)] + segs_view(restg));
                    }
                    Ok((out, e2))
                },
            }
        },
    }
}

fn lst_more_at(inp: &Vec<char>, pos: usize) -> (r: Result<(Vec<EsonSegment>, usize), ParseError>)
    requires
        pos <= inp.len(),
    ensures
        spec_lst_more(inp@, pos as int) matches Pr::Parsed(elems, e) ==> r is Ok && segs_view(
            r->Ok_0.0@,
        ) == elems && r->Ok_0.1 == e && pos <= e <= inp.len(),
        spec_lst_more(inp@, pos as int) is Soft ==> r is Err && !r->Err_0.committed && r->Err_0.kind == crate::error::ErrorKind::Syntax,
        spec_lst_more(inp@, pos as int) is Hard ==> r is Err && r->Err_0.committed
            && r->Err_0.kind == crate::error::ErrorKind::Syntax,
        spec_lst_more(inp@, pos as int) is Over ==> r is Err && r->Err_0.committed
            && r->Err_0.kind == crate::error::ErrorKind::Overflow,
    decreases inp@.len() - pos, 190int,
{
    let q = sp_at(inp, pos);
    if q < inp.len() && inp[q] == ',' {
        match crate::eson_at(inp, q + 1) {
            Err(e) => {
                if e.committed {
                    Err(e)
                } else {
                    Ok((Vec::new(), pos))
                }
            },
            Ok((v, e)) => {
                let ghost vg = v;
                if e <= pos {
                    return Ok((Vec::new(), pos));
                }
                match lst_more_at(inp, e) {
                    Err(e2) => Err(e2),
                    Ok((rest, e2)) => {
                        let ghost restg = rest@;
                        let mut out: Vec<EsonSegment> = Vec::new();
                        out.push(v);
                        let mut rest2 = rest;
                        out.append(&mut rest2);
                        proof {
                            assert(out@ =~= seq![vg] + restg);
                            assert(segs_view(out@) =~= seq![seg_view(vg)] + segs_view(restg));
                        }
                        Ok((out, e2))
                    },
                }
            },
        }
    } else {
        Ok((Vec::new(), pos))
    }
}

// ---------------------------------------------------------------------------
// The live list
// ---------------------------------------------------------------------------

/// A list: `[`, comma-separated values, an optional trailing comma, `]`.
/// The opening bracket is the commit point: after it, a malformed body or
/// a missing closing bracket is a committed failure.
pub open spec fn spec_parse_lst(s: Seq<char>, pos: int) -> Pr<Seq<SegV>>
    decreases s.len() - pos, 40int,
{
    if 0 <= pos && pos < s.len() && s[pos] == '[' {
        match spec_lst_items(s, pos + 1) {
            Pr::Parsed(elems, e) => if pos < e <= s.len() {
                let q2 = spec_sp(s, e);
                let q3 = if 0 <= q2 && q2 < s.len() && s[q2] == ',' {
                    spec_sp(s, q2 + 1)
                } else {
                    q2
                };
                if 0 <= q3 && q3 < s.len() && s[q3] == ']' {
                    Pr::Parsed(elems, q3 + 1)
                } else {
                    Pr::Hard
                }
            } else {
                Pr::Hard
            },
            Pr::Soft => Pr::Hard,
            Pr::Hard => Pr::Hard,
            Pr::Over => Pr::Over,
        }
    } else {
        Pr::Soft
    }
}

pub(crate) fn lst_at(inp: &Vec<char>, pos: usize) -> (r: Result<
    (Vec<EsonSegment>, usize),
    ParseError,
>)
    requires
        pos <= inp.len(),
    ensures
        spec_parse_lst(inp@, pos as int) matches Pr::Parsed(elems, e) ==> r is Ok && segs_view(
            r->Ok_0.0@,
        ) == elems && r->Ok_0.1 == e && pos <= e <= inp.len(),
        spec_parse_lst(inp@, pos as int) is Soft ==> r is Err && !r->Err_0.committed && r->Err_0.kind == crate::error::ErrorKind::Syntax,
        spec_parse_lst(inp@, pos as int) is Hard ==> r is Err && r->Err_0.committed
            && r->Err_0.kind == crate::error::ErrorKind::Syntax,
        spec_parse_lst(inp@, pos as int) is Over ==> r is Err && r->Err_0.committed
            && r->Err_0.kind == crate::error::ErrorKind::Overflow,
    decreases inp@.len() - pos, 40int,
{
    if pos < inp.len() && inp[pos] == '[' {
        match lst_items_at(inp, pos + 1) {
            Ok((elems, e)) => {
                let q2 = sp_at(inp, e);
                let q3 = if q2 < inp.len() && inp[q2] == ',' {
                    sp_at(inp, q2 + 1)
                } else {
                    q2
                };
                if q3 < inp.len() && inp[q3] == ']' {
                    Ok((elems, q3 + 1))
                } else {
                    Err(ParseError::hard(q3))
                }
            },
            Err(e) => Err(e.commit()),
        }
    } else {
        Err(ParseError::soft(pos))
    }
}

// ---------------------------------------------------------------------------
// The constant list
// ---------------------------------------------------------------------------

pub open spec fn spec_literal_lst_items(s: Seq<char>, pos: int) -> Pr<Seq<LitV>>
    decreases s.len() - pos, 180int,
{
    match crate::spec_eson_literal(s, pos) {
        Pr::Soft => Pr::Parsed(Seq::empty(), pos),
        Pr::Hard => Pr::Hard,
        Pr::Over => Pr::Over,
        Pr::Parsed(v, e) => if pos < e <= s.len() {
            match spec_literal_lst_more(s, e) {
                Pr::Parsed(rest, e2) => Pr::Parsed(seq![v] + rest, e2),
                Pr::Soft => Pr::Soft,
                Pr::Hard => Pr::Hard,
                Pr::Over => Pr::Over,
            }
        } else {
            Pr::Parsed(Seq::empty(), pos)
        },
    }
}

pub open spec fn spec_literal_lst_more(s: Seq<char>, pos: int) -> Pr<Seq<LitV>>
    decreases s.len() - pos, 190int,
{
    let q = spec_sp(s, pos);
    if 0 <= q && q < s.len() && s[q] == ',' {
        match crate::spec_eson_literal(s, q + 1) {
            Pr::Soft => Pr::Parsed(Seq::empty(), pos),
            Pr::Hard => Pr::Hard,
            Pr::Over => Pr::Over,
            Pr::Parsed(v, e) => if pos < e <= s.len() {
                match spec_literal_lst_more(s, e) {
                    Pr::Parsed(rest, e2) => Pr::Parsed(seq![v] + rest, e2),
                    Pr::Soft => Pr::Soft,
                    Pr::Hard => Pr::Hard,
                    Pr::Over => Pr::Over,
                }
            } else {
                Pr::Parsed(Seq::empty(), pos)
            },
        }
    } else {
        Pr::Parsed(Seq::empty(), pos)
    }
}

fn literal_lst_items_at(inp: &Vec<char>, pos: usize) -> (r: Result<
    (Vec<EsonLiteralSegment>, usize),
    ParseError,
>)
    requires
        pos <= inp.len(),
    ensures
        spec_literal_lst_items(inp@, pos as int) matches Pr::Parsed(elems, e) ==> r is Ok
            && lits_view(r->Ok_0.0@) == elems && r->Ok_0.1 == e && pos <= e <= inp.len(),
        spec_literal_lst_items(inp@, pos as int) is Soft ==> r is Err && !r->Err_0.committed && r->Err_0.kind == crate::error::ErrorKind::Syntax,
        spec_literal_lst_items(inp@, pos as int) is Hard ==> r is Err && r->Err_0.committed
            && r->Err_0.kind == crate::error::ErrorKind::Syntax,
        spec_literal_lst_items(inp@, pos as int) is Over ==> r is Err && r->Err_0.committed
            && r->Err_0.kind == crate::error::ErrorKind::Overflow,
    decreases inp@.len() - pos, 180int,
{
    match crate::eson_literal_at(inp, pos) {
        Err(e) => {
            if e.committed {
                Err(e)
            } else {
                Ok((Vec::new(), pos))
            }
        },
        Ok((v, e)) => {
            let ghost vg = v;
            if e <= pos {
                return Ok((Vec::new(), pos));
            }
            match literal_lst_more_at(inp, e) {
                Err(e2) => Err(e2),
                Ok((rest, e2)) => {
                    let ghost restg = rest@;
                    let mut out: Vec<EsonLiteralSegment> = Vec::new();
                    out.push(v);
                    let mut rest2 = rest;
                    out.append(&mut rest2);
                    proof {
                        assert(out@ =~= seq![vg] + restg);
                        assert(lits_view(out@) =~= seq![lit_view(vg)] + lits_view(restg));
                    }
                    Ok((out, e2))
                },
            }
        },
    }
}

fn literal_lst_more_at(inp: &Vec<char>, pos: usize) -> (r: Result<
    (Vec<EsonLiteralSegment>, usize),
    ParseError,
>)
    requires
        pos <= inp.len(),
    ensures
        spec_literal_lst_more(inp@, pos as int) matches Pr::Parsed(elems, e) ==> r is Ok
            && lits_view(r->Ok_0.0@) == elems && r->Ok_0.1 == e && pos <= e <= inp.len(),
        spec_literal_lst_more(inp@, pos as int) is Soft ==> r is Err && !r->Err_0.committed && r->Err_0.kind == crate::error::ErrorKind::Syntax,
        spec_literal_lst_more(inp@, pos as int) is Hard ==> r is Err && r->Err_0.committed
            && r->Err_0.kind == crate::error::ErrorKind::Syntax,
        spec_literal_lst_more(inp@, pos as int) is Over ==> r is Err && r->Err_0.committed
            && r->Err_0.kind == crate::error::ErrorKind::Overflow,
    decreases inp@.len() - pos, 190int,
{
    let q = sp_at(inp, pos);
    if q < inp.len() && inp[q] == ',' {
        match crate::eson_literal_at(inp, q + 1) {
            Err(e) => {
                if e.committed {
                    Err(e)
                } else {
                    Ok((Vec::new(), pos))
                }
            },
            Ok((v, e)) => {
                let ghost vg = v;
                if e <= pos {
                    return Ok((Vec::new(), pos));
                }
                match literal_lst_more_at(inp, e) {
                    Err(e2) => Err(e2),
                    Ok((rest, e2)) => {
                        let ghost restg = rest@;
                        let mut out: Vec<EsonLiteralSegment> = Vec::new();
                        out.push(v);
                        let mut rest2 = rest;
                        out.append(&mut rest2);
                        proof {
                            assert(out@ =~= seq![vg] + restg);
                            assert(lits_view(out@) =~= seq![lit_view(vg)] + lits_view(restg));
                        }
                        Ok((out, e2))
                    },
                }
            },
        }
    } else {
        Ok((Vec::new(), pos))
    }
}

/// A constant list: as the live form, with elements restricted to
/// constants.
pub open spec fn spec_parse_literal_lst(s: Seq<char>, pos: int) -> Pr<Seq<LitV>>
    decreases s.len() - pos, 40int,
{
    if 0 <= pos && pos < s.len() && s[pos] == '[' {
        match spec_literal_lst_items(s, pos + 1) {
            Pr::Parsed(elems, e) => if pos < e <= s.len() {
                let q2 = spec_sp(s, e);
                let q3 = if 0 <= q2 && q2 < s.len() && s[q2] == ',' {
                    spec_sp(s, q2 + 1)
                } else {
                    q2
                };
                if 0 <= q3 && q3 < s.len() && s[q3] == ']' {
                    Pr::Parsed(elems, q3 + 1)
                } else {
                    Pr::Hard
                }
            } else {
                Pr::Hard
            },
            Pr::Soft => Pr::Hard,
            Pr::Hard => Pr::Hard,
            Pr::Over => Pr::Over,
        }
    } else {
        Pr::Soft
    }
}

pub(crate) fn literal_lst_at(inp: &Vec<char>, pos: usize) -> (r: Result<
    (Vec<EsonLiteralSegment>, usize),
    ParseError,
>)
    requires
        pos <= inp.len(),
    ensures
        spec_parse_literal_lst(inp@, pos as int) matches Pr::Parsed(elems, e) ==> r is Ok
            && lits_view(r->Ok_0.0@) == elems && r->Ok_0.1 == e && pos <= e <= inp.len(),
        spec_parse_literal_lst(inp@, pos as int) is Soft ==> r is Err && !r->Err_0.committed && r->Err_0.kind == crate::error::ErrorKind::Syntax,
        spec_parse_literal_lst(inp@, pos as int) is Hard ==> r is Err && r->Err_0.committed
            && r->Err_0.kind == crate::error::ErrorKind::Syntax,
        spec_parse_literal_lst(inp@, pos as int) is Over ==> r is Err && r->Err_0.committed
            && r->Err_0.kind == crate::error::ErrorKind::Overflow,
    decreases inp@.len() - pos, 40int,
{
    if pos < inp.len() && inp[pos] == '[' {
        match literal_lst_items_at(inp, pos + 1) {
            Ok((elems, e)) => {
                let q2 = sp_at(inp, e);
                let q3 = if q2 < inp.len() && inp[q2] == ',' {
                    sp_at(inp, q2 + 1)
                } else {
                    q2
                };
                if q3 < inp.len() && inp[q3] == ']' {
                    Ok((elems, q3 + 1))
                } else {
                    Err(ParseError::hard(q3))
                }
            },
            Err(e) => Err(e.commit()),
        }
    } else {
        Err(ParseError::soft(pos))
    }
}

// ---------------------------------------------------------------------------
// Entry points on text
// ---------------------------------------------------------------------------

/// Parses one list at the front of `i`: `[` values `]` with `,`
/// separators and an optional trailing comma.
pub fn parse_lst(i: &str) -> (r: Result<(String, Vec<EsonSegment>), ParseError>)
    ensures
        r is Err ==> r->Err_0.context@.len() > 0 && r->Err_0.context@.last()@
            == "parse_lst"@,
        spec_parse_lst(i@, 0) matches Pr::Parsed(elems, e) ==> r is Ok && segs_view(r->Ok_0.1@)
            == elems && r->Ok_0.0@ == i@.skip(e),
        spec_parse_lst(i@, 0) is Soft ==> r is Err && !r->Err_0.committed && r->Err_0.kind == crate::error::ErrorKind::Syntax,
        spec_parse_lst(i@, 0) is Hard ==> r is Err && r->Err_0.committed,
        spec_parse_lst(i@, 0) is Over ==> r is Err && r->Err_0.committed && r->Err_0.kind
            == crate::error::ErrorKind::Overflow,
{
    let v = chars_of(i);
    match lst_at(&v, 0) {
        Ok((elems, p)) => {
            let rest = i.substring_char(p, i.unicode_len()).to_owned();
            proof {
                assert(rest@ =~= i@.skip(p as int));
            }
            Ok((rest, elems))
        },
        Err(e) => Err(e.ctx("parse_lst")),
    }
}

/// Parses one constant list at the front of `i`.
pub fn parse_literal_lst(i: &str) -> (r: Result<(String, Vec<EsonLiteralSegment>), ParseError>)
    ensures
        r is Err ==> r->Err_0.context@.len() > 0 && r->Err_0.context@.last()@
            == "parse_literal_lst"@,
        spec_parse_literal_lst(i@, 0) matches Pr::Parsed(elems, e) ==> r is Ok && lits_view(
            r->Ok_0.1@,
        ) == elems && r->Ok_0.0@ == i@.skip(e),
        spec_parse_literal_lst(i@, 0) is Soft ==> r is Err && !r->Err_0.committed && r->Err_0.kind == crate::error::ErrorKind::Syntax,
        spec_parse_literal_lst(i@, 0) is Hard ==> r is Err && r->Err_0.committed,
        spec_parse_literal_lst(i@, 0) is Over ==> r is Err && r->Err_0.committed && r->Err_0.kind
            == crate::error::ErrorKind::Overflow,
{
    let v = chars_of(i);
    match literal_lst_at(&v, 0) {
        Ok((elems, p)) => {
            let rest = i.substring_char(p, i.unicode_len()).to_owned();
            proof {
                assert(rest@ =~= i@.skip(p as int));
            }
            Ok((rest, elems))
        },
        Err(e) => Err(e.ctx("parse_literal_lst")),
    }
}

} // verus!
