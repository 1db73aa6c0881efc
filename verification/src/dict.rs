use vstd::prelude::*;
use crate::annotation::{parse_annotations_at, spec_parse_annotations};
use crate::ast::{
    entries_view, key_view, lentries_view, lit_view, seg_view, spec_dict_of_pairs, Dict,
    EsonLiteralSegment, EsonSegment, Key, KeyV, LitV, LiteralDict, SegV,
};
use crate::chars::{chars_of, legal_id_at, slice_chars, spec_legal_id, string_from_chars};
use crate::comments::{sp_at, spec_sp};
use crate::error::{ParseError, Pr};
use crate::string::{spec_parse_string, string_at};

verus! {

broadcast use
    vstd::std_specs::vec::group_vec_axioms,
    vstd::seq::group_seq_axioms,
    crate::chars::lemma_ws_end_le,
    crate::chars::lemma_id_end_le,
    crate::comments::lemma_spec_sp_le;

// ---------------------------------------------------------------------------
// Keys
// ---------------------------------------------------------------------------

/// A key: its annotations, then a quoted string or a bare identifier as
/// the name.  The annotation run never fails, so the annotation field is
/// always present, possibly empty.
pub open spec fn spec_key(s: Seq<char>, pos: int) -> Pr<KeyV>
    decreases s.len() - pos, 160int,
{
    match spec_parse_annotations(s, pos) {
        Pr::Hard => Pr::Hard,
        Pr::Over => Pr::Over,
        Pr::Soft => Pr::Soft,
        Pr::Parsed(anns, e) => if pos <= e <= s.len() {
            let q = spec_sp(s, e);
            match spec_parse_string(s, q) {
                Pr::Parsed(str, e2) => Pr::Parsed(
                    KeyV { name: str, annotation: Option::Some(anns) },
                    e2,
                ),
                Pr::Hard => Pr::Hard,
                Pr::Over => Pr::Over,
                Pr::Soft => match spec_legal_id(s, q) {
                    Option::Some(ie) => Pr::Parsed(
                        KeyV { name: s.subrange(q, ie), annotation: Option::Some(anns) },
                        ie,
                    ),
                    Option::None => Pr::Soft,
                },
            }
        } else {
            Pr::Soft
        },
    }
}

pub(crate) fn key_at(inp: &Vec<char>, pos: usize) -> (r: Result<(Key, usize), ParseError>)
    requires
        pos <= inp.len(),
    ensures
        spec_key(inp@, pos as int) matches Pr::Parsed(k, e) ==> r is Ok && key_view(r->Ok_0.0)
            == k && r->Ok_0.1 == e && pos <= e <= inp.len(),
        spec_key(inp@, pos as int) is Soft ==> r is Err && !r->Err_0.committed && r->Err_0.kind == crate::error::ErrorKind::Syntax,
        spec_key(inp@, pos as int) is Hard ==> r is Err && r->Err_0.committed && r->Err_0.kind
            == crate::error::ErrorKind::Syntax,
        spec_key(inp@, pos as int) is Over ==> r is Err && r->Err_0.committed && r->Err_0.kind
            == crate::error::ErrorKind::Overflow,
    decreases inp@.len() - pos, 160int,
{
    match parse_annotations_at(inp, pos) {
        Err(e) => Err(e),
        Ok((anns, e)) => {
            let q = sp_at(inp, e);
            match string_at(inp, q) {
                Ok((name_v, e2)) => {
                    Ok((Key { name: string_from_chars(&name_v), annotation: Some(anns) }, e2))
                },
                Err(err) => {
                    if err.committed {
                        Err(err)
                    } else {
                        match legal_id_at(inp, q) {
                            Some(ie) => {
                                let name_v = slice_chars(inp, q, ie);
                                Ok((
                                    Key {
                                        name: string_from_chars(&name_v),
                                        annotation: Some(anns),
                                    },
                                    ie,
                                ))
                            },
                            None => Err(ParseError::soft(q)),
                        }
                    }
                },
            }
        },
    }
}

// ---------------------------------------------------------------------------
// Key-value pairs
// ---------------------------------------------------------------------------

/// One `key : value` pair.  The colon is required once a key has been
/// read: its absence is a committed failure.
pub open spec fn spec_key_value(s: Seq<char>, pos: int) -> Pr<(KeyV, SegV)>
    decreases s.len() - pos, 170int,
{
    match spec_key(s, pos) {
        Pr::Soft => Pr::Soft,
        Pr::Hard => Pr::Hard,
        Pr::Over => Pr::Over,
        Pr::Parsed(k, e) => if pos <= e <= s.len() {
            let q = spec_sp(s, e);
            if 0 <= q && q < s.len() && s[q] == ':' {
                match crate::spec_eson(s, q + 1) {
                    Pr::Parsed(v, e2) => Pr::Parsed((k, v), e2),
                    Pr::Soft => Pr::Soft,
                    Pr::Hard => Pr::Hard,
                    Pr::Over => Pr::Over,
                }
            } else {
                Pr::Hard
            }
        } else {
            Pr::Soft
        },
    }
}

fn key_value_at(inp: &Vec<char>, pos: usize) -> (r: Result<((Key, EsonSegment), usize), ParseError>)
    requires
        pos <= inp.len(),
    ensures
        spec_key_value(inp@, pos as int) matches Pr::Parsed(kv, e) ==> r is Ok && (
        key_view(r->Ok_0.0.0),
        seg_view(r->Ok_0.0.1),
        ) == kv && r->Ok_0.1 == e && pos <= e <= inp.len(),
        spec_key_value(inp@, pos as int) is Soft ==> r is Err && !r->Err_0.committed && r->Err_0.kind == crate::error::ErrorKind::Syntax,
        spec_key_value(inp@, pos as int) is Hard ==> r is Err && r->Err_0.committed
            && r->Err_0.kind == crate::error::ErrorKind::Syntax,
        spec_key_value(inp@, pos as int) is Over ==> r is Err && r->Err_0.committed
            && r->Err_0.kind == crate::error::ErrorKind::Overflow,
    decreases inp@.len() - pos, 170int,
{
    match key_at(inp, pos) {
        Err(e) => Err(e),
        Ok((k, e)) => {
            let q = sp_at(inp, e);
            if q < inp.len() && inp[q] == ':' {
                match crate::eson_at(inp, q + 1) {
                    Ok((v, e2)) => Ok(((k, v), e2)),
                    Err(e2) => Err(e2),
                }
            } else {
                Err(ParseError::hard(q))
            }
        },
    }
}

pub open spec fn spec_dict_items(s: Seq<char>, pos: int) -> Pr<Seq<(KeyV, SegV)>>
    decreases s.len() - pos, 180int,
{
    match spec_key_value(s, pos) {
        Pr::Soft => Pr::Parsed(Seq::empty(), pos),
        Pr::Hard => Pr::Hard,
        Pr::Over => Pr::Over,
        Pr::Parsed(kv, e) => if pos < e <= s.len() {
            match spec_dict_more(s, e) {
                Pr::Parsed(rest, e2) => Pr::Parsed(seq![kv] + rest, e2),
                Pr::Soft => Pr::Soft,
                Pr::Hard => Pr::Hard,
                Pr::Over => Pr::Over,
            }
        } else {
            Pr::Parsed(Seq::empty(), pos)
        },
    }
}

pub open spec fn spec_dict_more(s: Seq<char>, pos: int) -> Pr<Seq<(KeyV, SegV)>>
    decreases s.len() - pos, 190int,
{
    let q = spec_sp(s, pos);
    if 0 <= q && q < s.len() && s[q] == ',' {
        match spec_key_value(s, q + 1) {
            Pr::Soft => Pr::Parsed(Seq::empty(), pos),
            Pr::Hard => Pr::Hard,
            Pr::Over => Pr::Over,
            Pr::Parsed(kv, e) => if pos < e <= s.len() {
                match spec_dict_more(s, e) {
                    Pr::Parsed(rest, e2) => Pr::Parsed(seq![kv] + rest, e2),
                    Pr::Soft => Pr::Soft,
                    Pr::Hard => Pr::Hard,
                    Pr::Over => Pr::Over,
                }
            } else {
                Pr::Parsed(Seq::empty(), pos)
            },
        }
    } else {
        Pr::Parsed(Seq::empty(), pos)
    }
}

fn dict_items_at(inp: &Vec<char>, pos: usize) -> (r: Result<
    (Vec<(Key, EsonSegment)>, usize),
    ParseError,
>)
    requires
        pos <= inp.len(),
    ensures
        spec_dict_items(inp@, pos as int) matches Pr::Parsed(pairs, e) ==> r is Ok && entries_view(
            r->Ok_0.0@,
        ) == pairs && r->Ok_0.1 == e && pos <= e <= inp.len(),
        spec_dict_items(inp@, pos as int) is Soft ==> r is Err && !r->Err_0.committed && r->Err_0.kind == crate::error::ErrorKind::Syntax,
        spec_dict_items(inp@, pos as int) is Hard ==> r is Err && r->Err_0.committed
            && r->Err_0.kind == crate::error::ErrorKind::Syntax,
        spec_dict_items(inp@, pos as int) is Over ==> r is Err && r->Err_0.committed
            && r->Err_0.kind == crate::error::ErrorKind::Overflow,
    decreases inp@.len() - pos, 180int,
{
    match key_value_at(inp, pos) {
        Err(e) => {
            if e.committed {
                Err(e)
            } else {
                Ok((Vec::new(), pos))
            }
        },
        Ok((kv, e)) => {
            let ghost kvg = kv;
            if e <= pos {
                return Ok((Vec::new(), pos));
            }
            match dict_more_at(inp, e) {
                Err(e2) => Err(e2),
                Ok((rest, e2)) => {
                    let ghost restg = rest@;
                    let mut out: Vec<(Key, EsonSegment)> = Vec::new();
                    out.push(kv);
                    let mut rest2 = rest;
                    out.append(&mut rest2);
                    proof {
                        assert(out@ =~= seq![kvg] + restg);
                        assert(entries_view(out@) =~= seq![(key_view(kvg.0), seg_view(kvg.1))]
                            + entries_view(restg));
                    }
                    Ok((out, e2))
                },
            }
        },
    }
}

fn dict_more_at(inp: &Vec<char>, pos: usize) -> (r: Result<
    (Vec<(Key, EsonSegment)>, usize),
    ParseError,
>)
    requires
        pos <= inp.len(),
    ensures
        spec_dict_more(inp@, pos as int) matches Pr::Parsed(pairs, e) ==> r is Ok && entries_view(
            r->Ok_0.0@,
        ) == pairs && r->Ok_0.1 == e && pos <= e <= inp.len(),
        spec_dict_more(inp@, pos as int) is Soft ==> r is Err && !r->Err_0.committed && r->Err_0.kind == crate::error::ErrorKind::Syntax,
        spec_dict_more(inp@, pos as int) is Hard ==> r is Err && r->Err_0.committed
            && r->Err_0.kind == crate::error::ErrorKind::Syntax,
        spec_dict_more(inp@, pos as int) is Over ==> r is Err && r->Err_0.committed
            && r->Err_0.kind == crate::error::ErrorKind::Overflow,
    decreases inp@.len() - pos, 190int,
{
    let q = sp_at(inp, pos);
    if q < inp.len() && inp[q] == ',' {
        match key_value_at(inp, q + 1) {
            Err(e) => {
                if e.committed {
                    Err(e)
                } else {
                    Ok((Vec::new(), pos))
                }
            },
            Ok((kv, e)) => {
                let ghost kvg = kv;
                if e <= pos {
                    return Ok((Vec::new(), pos));
                }
                match dict_more_at(inp, e) {
                    Err(e2) => Err(e2),
                    Ok((rest, e2)) => {
                        let ghost restg = rest@;
                        let mut out: Vec<(Key, EsonSegment)> = Vec::new();
                        out.push(kv);
                        let mut rest2 = rest;
                        out.append(&mut rest2);
                        proof {
                            assert(out@ =~= seq![kvg] + restg);
                            assert(entries_view(out@) =~= seq![(key_view(kvg.0), seg_view(kvg.1))]
                                + entries_view(restg));
                        }
                        Ok((out, e2))
                    },
                }
            },
        }
    } else {
        Ok((Vec::new(), pos))
    }
}

// ---------------------------------------------------------------------------
// Building a dictionary from parsed pairs
// ---------------------------------------------------------------------------

fn dict_of_pairs(pairs: Vec<(Key, EsonSegment)>) -> (d: Dict)
    ensures
        entries_view(d.entries@) == spec_dict_of_pairs(entries_view(pairs@)),
{
    let ghost all = entries_view(pairs@);
    let mut rest = pairs;
    let ghost mut done: int = 0int;
    let mut d = Dict::new();
    proof {
        assert(all.take(0) =~= Seq::<(KeyV, SegV)>::empty());
        assert(entries_view(rest@) =~= all.skip(0));
    }
    while rest.len() > 0
        invariant
            0 <= done <= all.len(),
            all.len() - done == rest@.len(),
            entries_view(rest@) == all.skip(done),
            entries_view(d.entries@) == spec_dict_of_pairs(all.take(done)),
        decreases rest@.len(),
    {
        let ghost old_rest = rest@;
        let (k, v) = rest.remove(0);
        proof {
            assert(entries_view(old_rest)[0] == all.skip(done)[0]);
            assert((key_view(k), seg_view(v)) == all[done]);
            assert(rest@ =~= old_rest.subrange(1, old_rest.len() as int));
            assert forall|j: int| 0 <= j < rest@.len() implies entries_view(rest@)[j] == all.skip(
                done + 1,
            )[j] by {
                assert(rest@[j] == old_rest[j + 1]);
                assert(entries_view(old_rest)[j + 1] == all.skip(done)[j + 1]);
            }
            assert(entries_view(rest@) =~= all.skip(done + 1));
        }
        d.insert(k, v);
        proof {
            assert(all.take(done + 1).drop_last() =~= all.take(done));
            assert(all.take(done + 1).last() == all[done]);
            done = done + 1;
        }
    }
    proof {
        assert(all.take(done) =~= all);
    }
    d
}

fn literal_dict_of_pairs(pairs: Vec<(Key, EsonLiteralSegment)>) -> (d: LiteralDict)
    ensures
        lentries_view(d.entries@) == spec_dict_of_pairs(lentries_view(pairs@)),
{
    let ghost all = lentries_view(pairs@);
    let mut rest = pairs;
    let ghost mut done: int = 0int;
    let mut d = LiteralDict::new();
    proof {
        assert(all.take(0) =~= Seq::<(KeyV, LitV)>::empty());
        assert(lentries_view(rest@) =~= all.skip(0));
    }
    while rest.len() > 0
        invariant
            0 <= done <= all.len(),
            all.len() - done == rest@.len(),
            lentries_view(rest@) == all.skip(done),
            lentries_view(d.entries@) == spec_dict_of_pairs(all.take(done)),
        decreases rest@.len(),
    {
        let ghost old_rest = rest@;
        let (k, v) = rest.remove(0);
        proof {
            assert(lentries_view(old_rest)[0] == all.skip(done)[0]);
            assert((key_view(k), lit_view(v)) == all[done]);
            assert(rest@ =~= old_rest.subrange(1, old_rest.len() as int));
            assert forall|j: int| 0 <= j < rest@.len() implies lentries_view(rest@)[j] == all.skip(
                done + 1,
            )[j] by {
                assert(rest@[j] == old_rest[j + 1]);
                assert(lentries_view(old_rest)[j + 1] == all.skip(done)[j + 1]);
            }
            assert(lentries_view(rest@) =~= all.skip(done + 1));
        }
        d.insert(k, v);
        proof {
            assert(all.take(done + 1).drop_last() =~= all.take(done));
            assert(all.take(done + 1).last() == all[done]);
            done = done + 1;
        }
    }
    proof {
        assert(all.take(done) =~= all);
    }
    d
}

// ---------------------------------------------------------------------------
// The live dictionary
// ---------------------------------------------------------------------------

/// A dictionary: optional leading noise, `{`, `key : value` pairs with
/// `,` separators and an optional trailing comma, `}`.  The opening brace
/// is the commit point; duplicate names collapse to the last value with
/// the first key kept.
pub open spec fn spec_parse_dict(s: Seq<char>, pos: int) -> Pr<Seq<(KeyV, SegV)>>
    decreases s.len() - pos, 40int,
{
    let q = spec_sp(s, pos);
    if 0 <= q && q < s.len() && s[q] == '{' {
        match spec_dict_items(s, q + 1) {
            Pr::Parsed(pairs, e) => if q < e <= s.len() {
                let q2 = spec_sp(s, e);
                let q3 = if 0 <= q2 && q2 < s.len() && s[q2] == ',' {
                    spec_sp(s, q2 + 1)
                } else {
                    q2
                };
                if 0 <= q3 && q3 < s.len() && s[q3] == '}' {
                    Pr::Parsed(spec_dict_of_pairs(pairs), q3 + 1)
                } else {
                    Pr::Hard
                }
            } else {
                Pr::Hard
            },
            Pr::Soft => Pr::Hard,
            Pr::Hard => Pr::Hard,
            Pr::Over => Pr::Over,
        }
    } else {
        Pr::Soft
    }
}

pub(crate) fn dict_at(inp: &Vec<char>, pos: usize) -> (r: Result<(Dict, usize), ParseError>)
    requires
        pos <= inp.len(),
    ensures
        spec_parse_dict(inp@, pos as int) matches Pr::Parsed(entries, e) ==> r is Ok
            && entries_view(r->Ok_0.0.entries@) == entries && r->Ok_0.1 == e && pos <= e
            <= inp.len(),
        spec_parse_dict(inp@, pos as int) is Soft ==> r is Err && !r->Err_0.committed && r->Err_0.kind == crate::error::ErrorKind::Syntax,
        spec_parse_dict(inp@, pos as int) is Hard ==> r is Err && r->Err_0.committed
            && r->Err_0.kind == crate::error::ErrorKind::Syntax,
        spec_parse_dict(inp@, pos as int) is Over ==> r is Err && r->Err_0.committed
            && r->Err_0.kind == crate::error::ErrorKind::Overflow,
    decreases inp@.len() - pos, 40int,
{
    let q = sp_at(inp, pos);
    if q < inp.len() && inp[q] == '{' {
        match dict_items_at(inp, q + 1) {
            Ok((pairs, e)) => {
                let q2 = sp_at(inp, e);
                let q3 = if q2 < inp.len() && inp[q2] == ',' {
                    sp_at(inp, q2 + 1)
                } else {
                    q2
                };
                if q3 < inp.len() && inp[q3] == '}' {
                    Ok((dict_of_pairs(pairs), q3 + 1))
                } else {
                    Err(ParseError::hard(q3).ctx("dict_tail"))
                }
            },
            Err(e) => Err(e.commit().ctx("dict_body")),
        }
    } else {
        Err(ParseError::soft(q).ctx("dict_head"))
    }
}

// ---------------------------------------------------------------------------
// The constant dictionary
// ---------------------------------------------------------------------------

pub open spec fn spec_key_literal_value(s: Seq<char>, pos: int) -> Pr<(KeyV, LitV)>
    decreases s.len() - pos, 170int,
{
    match spec_key(s, pos) {
        Pr::Soft => Pr::Soft,
        Pr::Hard => Pr::Hard,
        Pr::Over => Pr::Over,
        Pr::Parsed(k, e) => if pos <= e <= s.len() {
            let q = spec_sp(s, e);
            if 0 <= q && q < s.len() && s[q] == ':' {
                match crate::spec_eson_literal(s, q + 1) {
                    Pr::Parsed(v, e2) => Pr::Parsed((k, v), e2),
                    Pr::Soft => Pr::Soft,
                    Pr::Hard => Pr::Hard,
                    Pr::Over => Pr::Over,
                }
            } else {
                Pr::Hard
            }
        } else {
            Pr::Soft
        },
    }
}

fn key_literal_value_at(inp: &Vec<char>, pos: usize) -> (r: Result<
    ((Key, EsonLiteralSegment), usize),
    ParseError,
>)
    requires
        pos <= inp.len(),
    ensures
        spec_key_literal_value(inp@, pos as int) matches Pr::Parsed(kv, e) ==> r is Ok && (
        key_view(r->Ok_0.0.0),
        lit_view(r->Ok_0.0.1),
        ) == kv && r->Ok_0.1 == e && pos <= e <= inp.len(),
        spec_key_literal_value(inp@, pos as int) is Soft ==> r is Err && !r->Err_0.committed && r->Err_0.kind == crate::error::ErrorKind::Syntax,
        spec_key_literal_value(inp@, pos as int) is Hard ==> r is Err && r->Err_0.committed
            && r->Err_0.kind == crate::error::ErrorKind::Syntax,
        spec_key_literal_value(inp@, pos as int) is Over ==> r is Err && r->Err_0.committed
            && r->Err_0.kind == crate::error::ErrorKind::Overflow,
    decreases inp@.len() - pos, 170int,
{
    match key_at(inp, pos) {
        Err(e) => Err(e),
        Ok((k, e)) => {
            let q = sp_at(inp, e);
            if q < inp.len() && inp[q] == ':' {
                match crate::eson_literal_at(inp, q + 1) {
                    Ok((v, e2)) => Ok(((k, v), e2)),
                    Err(e2) => Err(e2),
                }
            } else {
                Err(ParseError::hard(q))
            }
        },
    }
}

pub open spec fn spec_literal_dict_items(s: Seq<char>, pos: int) -> Pr<Seq<(KeyV, LitV)>>
    decreases s.len() - pos, 180int,
{
    match spec_key_literal_value(s, pos) {
        Pr::Soft => Pr::Parsed(Seq::empty(), pos),
        Pr::Hard => Pr::Hard,
        Pr::Over => Pr::Over,
        Pr::Parsed(kv, e) => if pos < e <= s.len() {
            match spec_literal_dict_more(s, e) {
                Pr::Parsed(rest, e2) => Pr::Parsed(seq![kv] + rest, e2),
                Pr::Soft => Pr::Soft,
                Pr::Hard => Pr::Hard,
                Pr::Over => Pr::Over,
            }
        } else {
            Pr::Parsed(Seq::empty(), pos)
        },
    }
}

pub open spec fn spec_literal_dict_more(s: Seq<char>, pos: int) -> Pr<Seq<(KeyV, LitV)>>
    decreases s.len() - pos, 190int,
{
    let q = spec_sp(s, pos);
    if 0 <= q && q < s.len() && s[q] == ',' {
        match spec_key_literal_value(s, q + 1) {
            Pr::Soft => Pr::Parsed(Seq::empty(), pos),
            Pr::Hard => Pr::Hard,
            Pr::Over => Pr::Over,
            Pr::Parsed(kv, e) => if pos < e <= s.len() {
                match spec_literal_dict_more(s, e) {
                    Pr::Parsed(rest, e2) => Pr::Parsed(seq![kv] + rest, e2),
                    Pr::Soft => Pr::Soft,
                    Pr::Hard => Pr::Hard,
                    Pr::Over => Pr::Over,
                }
            } else {
                Pr::Parsed(Seq::empty(), pos)
            },
        }
    } else {
        Pr::Parsed(Seq::empty(), pos)
    }
}

fn literal_dict_items_at(inp: &Vec<char>, pos: usize) -> (r: Result<
    (Vec<(Key, EsonLiteralSegment)>, usize),
    ParseError,
>)
    requires
        pos <= inp.len(),
    ensures
        spec_literal_dict_items(inp@, pos as int) matches Pr::Parsed(pairs, e) ==> r is Ok
            && lentries_view(r->Ok_0.0@) == pairs && r->Ok_0.1 == e && pos <= e <= inp.len(),
        spec_literal_dict_items(inp@, pos as int) is Soft ==> r is Err && !r->Err_0.committed && r->Err_0.kind == crate::error::ErrorKind::Syntax,
        spec_literal_dict_items(inp@, pos as int) is Hard ==> r is Err && r->Err_0.committed
            && r->Err_0.kind == crate::error::ErrorKind::Syntax,
        spec_literal_dict_items(inp@, pos as int) is Over ==> r is Err && r->Err_0.committed
            && r->Err_0.kind == crate::error::ErrorKind::Overflow,
    decreases inp@.len() - pos, 180int,
{
    match key_literal_value_at(inp, pos) {
        Err(e) => {
            if e.committed {
                Err(e)
            } else {
                Ok((Vec::new(), pos))
            }
        },
        Ok((kv, e)) => {
            let ghost kvg = kv;
            if e <= pos {
                return Ok((Vec::new(), pos));
            }
            match literal_dict_more_at(inp, e) {
                Err(e2) => Err(e2),
                Ok((rest, e2)) => {
                    let ghost restg = rest@;
                    let mut out: Vec<(Key, EsonLiteralSegment)> = Vec::new();
                    out.push(kv);
                    let mut rest2 = rest;
                    out.append(&mut rest2);
                    proof {
                        assert(out@ =~= seq![kvg] + restg);
                        assert(lentries_view(out@) =~= seq![(key_view(kvg.0), lit_view(kvg.1))]
                            + lentries_view(restg));
                    }
                    Ok((out, e2))
                },
            }
        },
    }
}

fn literal_dict_more_at(inp: &Vec<char>, pos: usize) -> (r: Result<
    (Vec<(Key, EsonLiteralSegment)>, usize),
    ParseError,
>)
    requires
        pos <= inp.len(),
    ensures
        spec_literal_dict_more(inp@, pos as int) matches Pr::Parsed(pairs, e) ==> r is Ok
            && lentries_view(r->Ok_0.0@) == pairs && r->Ok_0.1 == e && pos <= e <= inp.len(),
        spec_literal_dict_more(inp@, pos as int) is Soft ==> r is Err && !r->Err_0.committed && r->Err_0.kind == crate::error::ErrorKind::Syntax,
        spec_literal_dict_more(inp@, pos as int) is Hard ==> r is Err && r->Err_0.committed
            && r->Err_0.kind == crate::error::ErrorKind::Syntax,
        spec_literal_dict_more(inp@, pos as int) is Over ==> r is Err && r->Err_0.committed
            && r->Err_0.kind == crate::error::ErrorKind::Overflow,
    decreases inp@.len() - pos, 190int,
{
    let q = sp_at(inp, pos);
    if q < inp.len() && inp[q] == ',' {
        match key_literal_value_at(inp, q + 1) {
            Err(e) => {
                if e.committed {
                    Err(e)
                } else {
                    Ok((Vec::new(), pos))
                }
            },
            Ok((kv, e)) => {
                let ghost kvg = kv;
                if e <= pos {
                    return Ok((Vec::new(), pos));
                }
                match literal_dict_more_at(inp, e) {
                    Err(e2) => Err(e2),
                    Ok((rest, e2)) => {
                        let ghost restg = rest@;
                        let mut out: Vec<(Key, EsonLiteralSegment)> = Vec::new();
                        out.push(kv);
                        let mut rest2 = rest;
                        out.append(&mut rest2);
                        proof {
                            assert(out@ =~= seq![kvg] + restg);
                            assert(lentries_view(out@) =~= seq![(key_view(kvg.0), lit_view(kvg.1))]
                                + lentries_view(restg));
                        }
                        Ok((out, e2))
                    },
                }
            },
        }
    } else {
        Ok((Vec::new(), pos))
    }
}

/// A constant dictionary: as the live form, with values restricted to
/// constants.
pub open spec fn spec_parse_literal_dict(s: Seq<char>, pos: int) -> Pr<Seq<(KeyV, LitV)>>
    decreases s.len() - pos, 40int,
{
    let q = spec_sp(s, pos);
    if 0 <= q && q < s.len() && s[q] == '{' {
        match spec_literal_dict_items(s, q + 1) {
            Pr::Parsed(pairs, e) => if q < e <= s.len() {
                let q2 = spec_sp(s, e);
                let q3 = if 0 <= q2 && q2 < s.len() && s[q2] == ',' {
                    spec_sp(s, q2 + 1)
                } else {
                    q2
                };
                if 0 <= q3 && q3 < s.len() && s[q3] == '}' {
                    Pr::Parsed(spec_dict_of_pairs(pairs), q3 + 1)
                } else {
                    Pr::Hard
                }
            } else {
                Pr::Hard
            },
            Pr::Soft => Pr::Hard,
            Pr::Hard => Pr::Hard,
            Pr::Over => Pr::Over,
        }
    } else {
        Pr::Soft
    }
}

pub(crate) fn literal_dict_at(inp: &Vec<char>, pos: usize) -> (r: Result<
    (LiteralDict, usize),
    ParseError,
>)
    requires
        pos <= inp.len(),
    ensures
        spec_parse_literal_dict(inp@, pos as int) matches Pr::Parsed(entries, e) ==> r is Ok
            && lentries_view(r->Ok_0.0.entries@) == entries && r->Ok_0.1 == e && pos <= e
            <= inp.len(),
        spec_parse_literal_dict(inp@, pos as int) is Soft ==> r is Err && !r->Err_0.committed && r->Err_0.kind == crate::error::ErrorKind::Syntax,
        spec_parse_literal_dict(inp@, pos as int) is Hard ==> r is Err && r->Err_0.committed
            && r->Err_0.kind == crate::error::ErrorKind::Syntax,
        spec_parse_literal_dict(inp@, pos as int) is Over ==> r is Err && r->Err_0.committed
            && r->Err_0.kind == crate::error::ErrorKind::Overflow,
    decreases inp@.len() - pos, 40int,
{
    let q = sp_at(inp, pos);
    if q < inp.len() && inp[q] == '{' {
        match literal_dict_items_at(inp, q + 1) {
            Ok((pairs, e)) => {
                let q2 = sp_at(inp, e);
                let q3 = if q2 < inp.len() && inp[q2] == ',' {
                    sp_at(inp, q2 + 1)
                } else {
                    q2
                };
                if q3 < inp.len() && inp[q3] == '}' {
                    Ok((literal_dict_of_pairs(pairs), q3 + 1))
                } else {
                    Err(ParseError::hard(q3).ctx("dict_literal_tail"))
                }
            },
            Err(e) => Err(e.commit().ctx("dict_literal_body")),
        }
    } else {
        Err(ParseError::soft(q).ctx("dict_literal_head"))
    }
}

// ---------------------------------------------------------------------------
// Entry points on text
// ---------------------------------------------------------------------------

/// Parses one key at the front of `i`: annotations, then a quoted string
/// or bare identifier.
pub fn key(i: &str) -> (r: Result<(String, Key), ParseError>)
    ensures
        r is Err ==> r->Err_0.context@.len() > 0 && r->Err_0.context@.last()@
            == "key"@,
        spec_key(i@, 0) matches Pr::Parsed(k, e) ==> r is Ok && key_view(r->Ok_0.1) == k
            && r->Ok_0.0@ == i@.skip(e),
        spec_key(i@, 0) is Soft ==> r is Err && !r->Err_0.committed && r->Err_0.kind == crate::error::ErrorKind::Syntax,
        spec_key(i@, 0) is Hard ==> r is Err && r->Err_0.committed,
        spec_key(i@, 0) is Over ==> r is Err && r->Err_0.committed && r->Err_0.kind
            == crate::error::ErrorKind::Overflow,
{
    let v = chars_of(i);
    match key_at(&v, 0) {
        Ok((k, p)) => {
            let rest = i.substring_char(p, i.unicode_len()).to_owned();
            proof {
                assert(rest@ =~= i@.skip(p as int));
            }
            Ok((rest, k))
        },
        Err(e) => Err(e.ctx("key")),
    }
}

/// Parses one dictionary at the front of `i` and returns it with the
/// remaining text: entries in order, duplicate names collapsed to the last
/// value under the first key.
pub fn parse_dict(i: &str) -> (r: Result<(String, Dict), ParseError>)
    ensures
        r is Err ==> r->Err_0.context@.len() > 0 && r->Err_0.context@.last()@
            == "parse_dict"@,
        spec_parse_dict(i@, 0) matches Pr::Parsed(entries, e) ==> r is Ok && entries_view(
            r->Ok_0.1.entries@,
        ) == entries && r->Ok_0.0@ == i@.skip(e),
        spec_parse_dict(i@, 0) is Soft ==> r is Err && !r->Err_0.committed && r->Err_0.kind == crate::error::ErrorKind::Syntax,
        spec_parse_dict(i@, 0) is Hard ==> r is Err && r->Err_0.committed,
        spec_parse_dict(i@, 0) is Over ==> r is Err && r->Err_0.committed && r->Err_0.kind
            == crate::error::ErrorKind::Overflow,
{
    let v = chars_of(i);
    match dict_at(&v, 0) {
        Ok((d, p)) => {
            let rest = i.substring_char(p, i.unicode_len()).to_owned();
            proof {
                assert(rest@ =~= i@.skip(p as int));
            }
            Ok((rest, d))
        },
        Err(e) => Err(e.ctx("parse_dict")),
    }
}

/// Parses one constant dictionary at the front of `i`.
pub fn parse_literal_dict(i: &str) -> (r: Result<(String, LiteralDict), ParseError>)
    ensures
        r is Err ==> r->Err_0.context@.len() > 0 && r->Err_0.context@.last()@
            == "parse_dict_literal"@,
        spec_parse_literal_dict(i@, 0) matches Pr::Parsed(entries, e) ==> r is Ok && lentries_view(
            r->Ok_0.1.entries@,
        ) == entries && r->Ok_0.0@ == i@.skip(e),
        spec_parse_literal_dict(i@, 0) is Soft ==> r is Err && !r->Err_0.committed && r->Err_0.kind == crate::error::ErrorKind::Syntax,
        spec_parse_literal_dict(i@, 0) is Hard ==> r is Err && r->Err_0.committed,
        spec_parse_literal_dict(i@, 0) is Over ==> r is Err && r->Err_0.committed && r->Err_0.kind
            == crate::error::ErrorKind::Overflow,
{
    let v = chars_of(i);
    match literal_dict_at(&v, 0) {
        Ok((d, p)) => {
            let rest = i.substring_char(p, i.unicode_len()).to_owned();
            proof {
                assert(rest@ =~= i@.skip(p as int));
            }
            Ok((rest, d))
        },
        Err(e) => Err(e.ctx("parse_dict_literal")),
    }
}

} // verus!
