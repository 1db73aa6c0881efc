//! A verified parser for ESON, a JSON superset with comments, trailing
//! commas, per-key annotations, escaped, raw and interpolated string
//! literals, radix-prefixed and floating numeric literals, and embedded
//! `${ ... }` expression literals with their own operator grammar and
//! `self` / `super` / `$` references.
//!
//! Every production is specified by a mathematical mirror of the grammar
//! over character sequences, and every executable parser is proved to
//! return exactly what its mirror says: the same tree, the same stopping
//! position, and the same failure mode, backtrackable or committed.
//! Malformed input, including numeric overflow and structural faults in
//! expression token runs, comes back as an error value; nothing panics.

use vstd::prelude::*;

pub mod annotation;
pub mod ast;
pub mod boolean;
pub mod chars;
pub mod comments;
pub mod dict;
pub mod error;
pub mod expr_token;
pub mod list;
pub mod null;
pub mod numeric;
pub mod render;
pub mod string;
pub mod types;
pub mod util;
pub mod expr;

pub use crate::annotation::{annotation, parse_annotations, sp_without_br0};
pub use crate::ast::{
    Annotation, Dict, EsonLiteralSegment, EsonSegment, ExprToken, ExprTokenChunk, FloatLit, Key,
    LiteralDict, RefIndex, RefPronoun,
};
pub use crate::boolean::{parse_boolean, parse_literal_boolean};
pub use crate::comments::{comment, sp};
pub use crate::dict::{key, parse_dict, parse_literal_dict};
pub use crate::error::{ErrorKind, ParseError};
pub use crate::expr_token::{expr_token_set, fn_call, operator, parse_expr_token_chunk, reference, value, var};
pub use crate::expr::{legal_id, parse_expr, ExprChunk, Parser};
pub use crate::util::Iter;
pub use crate::list::{parse_literal_lst, parse_lst};
pub use crate::null::{parse_literal_null, parse_null};
pub use crate::numeric::parse_literal_number;
pub use crate::string::{parse_literal_string, parse_string};
pub use crate::types::{JsonArray, JsonBool, JsonInt, JsonNull, JsonString, JsonValue};

use crate::ast::{lit_view, pub_matches, seg_view, LitV, SegV};
use crate::chars::chars_of;
use crate::comments::{sp_at, spec_sp};
use crate::error::Pr;

verus! {

broadcast use
    vstd::std_specs::vec::group_vec_axioms,
    vstd::seq::group_seq_axioms,
    crate::chars::lemma_ws_end_le,
    crate::comments::lemma_spec_sp_le;

// ---------------------------------------------------------------------------
// The value dispatcher
// ---------------------------------------------------------------------------

/// A live value: leading whitespace and comments are skipped, then the
/// alternatives are tried in fixed order: string, number, boolean, null,
/// list, dictionary, expression literal.  The first to match wins; a soft
/// failure moves to the next alternative, a committed failure or a numeric
/// overflow stops the search.
pub open spec fn spec_eson(s: Seq<char>, pos: int) -> Pr<SegV>
    decreases s.len() - pos, 50int,
{
    let q = spec_sp(s, pos);
    if pos < 0 || q < pos || q > s.len() {
        Pr::Soft
    } else {
        match crate::string::spec_parse_string(s, q) {
            Pr::Parsed(t, e) => Pr::Parsed(SegV::Str(t), e),
            Pr::Hard => Pr::Hard,
            Pr::Over => Pr::Over,
            Pr::Soft => match crate::numeric::spec_parse_numeric(s, q) {
                Pr::Parsed(v, e) => Pr::Parsed(v, e),
                Pr::Hard => Pr::Hard,
                Pr::Over => Pr::Over,
                Pr::Soft => match crate::boolean::spec_parse_boolean(s, q) {
                    Pr::Parsed(v, e) => Pr::Parsed(v, e),
                    Pr::Hard => Pr::Hard,
                    Pr::Over => Pr::Over,
                    Pr::Soft => match crate::null::spec_parse_null(s, q) {
                        Pr::Parsed(v, e) => Pr::Parsed(v, e),
                        Pr::Hard => Pr::Hard,
                        Pr::Over => Pr::Over,
                        Pr::Soft => match crate::list::spec_parse_lst(s, q) {
                            Pr::Parsed(elems, e) => Pr::Parsed(SegV::List(elems), e),
                            Pr::Hard => Pr::Hard,
                            Pr::Over => Pr::Over,
                            Pr::Soft => match crate::dict::spec_parse_dict(s, q) {
                                Pr::Parsed(entries, e) => Pr::Parsed(SegV::Dict(entries), e),
                                Pr::Hard => Pr::Hard,
                                Pr::Over => Pr::Over,
                                Pr::Soft => match crate::expr_token::spec_parse_expr_token_chunk(
                                    s,
                                    q,
                                ) {
                                    Pr::Parsed(toks, e) => Pr::Parsed(SegV::Expr(toks), e),
                                    Pr::Hard => Pr::Hard,
                                    Pr::Over => Pr::Over,
                                    Pr::Soft => Pr::Soft,
                                },
                            },
                        },
                    },
                },
            },
        }
    }
}

#[verifier::rlimit(100)]
pub(crate) fn eson_at(inp: &Vec<char>, pos: usize) -> (r: Result<(EsonSegment, usize), ParseError>)
    requires
        pos <= inp.len(),
    ensures
        spec_eson(inp@, pos as int) matches Pr::Parsed(v, e) ==> r is Ok && seg_view(r->Ok_0.0)
            == v && r->Ok_0.1 == e && pos <= e <= inp.len(),
        spec_eson(inp@, pos as int) is Soft ==> r is Err && !r->Err_0.committed && r->Err_0.kind == crate::error::ErrorKind::Syntax,
        spec_eson(inp@, pos as int) is Hard ==> r is Err && r->Err_0.committed && r->Err_0.kind
            == ErrorKind::Syntax,
        spec_eson(inp@, pos as int) is Over ==> r is Err && r->Err_0.committed && r->Err_0.kind
            == ErrorKind::Overflow,
    decreases inp@.len() - pos, 50int,
{
    let q = sp_at(inp, pos);
    match crate::string::string_at(inp, q) {
        Ok((t, e)) => Ok((EsonSegment::Str(crate::chars::string_from_chars(&t)), e)),
        Err(err) => {
            if err.committed {
                Err(err)
            } else {
                match crate::numeric::parse_numeric_at(inp, q) {
                    Ok(ve) => Ok(ve),
                    Err(err) => {
                        if err.committed {
                            Err(err)
                        } else {
                            match crate::boolean::parse_boolean_at(inp, q) {
                                Ok(ve) => Ok(ve),
                                Err(err) => {
                                    if err.committed {
                                        Err(err)
                                    } else {
                                        match crate::null::parse_null_at(inp, q) {
                                            Ok(ve) => Ok(ve),
                                            Err(err) => {
                                                if err.committed {
                                                    Err(err)
                                                } else {
                                                    eson_at_tail(inp, pos, q)
                                                }
                                            },
                                        }
                                    }
                                },
                            }
                        }
                    },
                }
            }
        },
    }
}

/// The collection and expression alternatives of the dispatcher.
#[verifier::rlimit(100)]
fn eson_at_tail(inp: &Vec<char>, pos: usize, q: usize) -> (r: Result<
    (EsonSegment, usize),
    ParseError,
>)
    requires
        pos <= inp.len(),
        q == spec_sp(inp@, pos as int),
        pos <= q <= inp.len(),
        crate::string::spec_parse_string(inp@, q as int) is Soft,
        crate::numeric::spec_parse_numeric(inp@, q as int) is Soft,
        crate::boolean::spec_parse_boolean(inp@, q as int) is Soft,
        crate::null::spec_parse_null(inp@, q as int) is Soft,
    ensures
        spec_eson(inp@, pos as int) matches Pr::Parsed(v, e) ==> r is Ok && seg_view(r->Ok_0.0)
            == v && r->Ok_0.1 == e && pos <= e <= inp.len(),
        spec_eson(inp@, pos as int) is Soft ==> r is Err && !r->Err_0.committed && r->Err_0.kind == crate::error::ErrorKind::Syntax,
        spec_eson(inp@, pos as int) is Hard ==> r is Err && r->Err_0.committed && r->Err_0.kind
            == ErrorKind::Syntax,
        spec_eson(inp@, pos as int) is Over ==> r is Err && r->Err_0.committed && r->Err_0.kind
            == ErrorKind::Overflow,
    decreases inp@.len() - pos, 45int,
{
    match crate::list::lst_at(inp, q) {
        Ok((elems, e)) => Ok((EsonSegment::List(elems), e)),
        Err(err) => {
            if err.committed {
                Err(err)
            } else {
                match crate::dict::dict_at(inp, q) {
                    Ok((d, e)) => Ok((EsonSegment::Dict(d), e)),
                    Err(err) => {
                        if err.committed {
                            Err(err)
                        } else {
                            match crate::expr_token::expr_chunk_at(inp, q) {
                                Ok((c, e)) => Ok((EsonSegment::Expr(c), e)),
                                Err(err) => Err(err),
                            }
                        }
                    },
                }
            }
        },
    }
}

/// A constant value: as the live dispatcher, in the order number, boolean,
/// null, string, list, dictionary; no expression alternative exists here.
pub open spec fn spec_eson_literal(s: Seq<char>, pos: int) -> Pr<LitV>
    decreases s.len() - pos, 50int,
{
    let q = spec_sp(s, pos);
    if pos < 0 || q < pos || q > s.len() {
        Pr::Soft
    } else {
        match crate::numeric::spec_parse_literal_number(s, q) {
            Pr::Parsed(v, e) => Pr::Parsed(v, e),
            Pr::Hard => Pr::Hard,
            Pr::Over => Pr::Over,
            Pr::Soft => match crate::boolean::spec_parse_literal_boolean(s, q) {
                Pr::Parsed(v, e) => Pr::Parsed(v, e),
                Pr::Hard => Pr::Hard,
                Pr::Over => Pr::Over,
                Pr::Soft => match crate::null::spec_parse_literal_null(s, q) {
                    Pr::Parsed(v, e) => Pr::Parsed(v, e),
                    Pr::Hard => Pr::Hard,
                    Pr::Over => Pr::Over,
                    Pr::Soft => match crate::string::spec_parse_literal_string(s, q) {
                        Pr::Parsed(t, e) => Pr::Parsed(LitV::Str(t), e),
                        Pr::Hard => Pr::Hard,
                        Pr::Over => Pr::Over,
                        Pr::Soft => match crate::list::spec_parse_literal_lst(s, q) {
                            Pr::Parsed(elems, e) => Pr::Parsed(LitV::List(elems), e),
                            Pr::Hard => Pr::Hard,
                            Pr::Over => Pr::Over,
                            Pr::Soft => match crate::dict::spec_parse_literal_dict(s, q) {
                                Pr::Parsed(entries, e) => Pr::Parsed(LitV::Dict(entries), e),
                                Pr::Hard => Pr::Hard,
                                Pr::Over => Pr::Over,
                                Pr::Soft => Pr::Soft,
                            },
                        },
                    },
                },
            },
        }
    }
}

#[verifier::rlimit(100)]
pub(crate) fn eson_literal_at(inp: &Vec<char>, pos: usize) -> (r: Result<
    (EsonLiteralSegment, usize),
    ParseError,
>)
    requires
        pos <= inp.len(),
    ensures
        spec_eson_literal(inp@, pos as int) matches Pr::Parsed(v, e) ==> r is Ok && lit_view(
            r->Ok_0.0,
        ) == v && r->Ok_0.1 == e && pos <= e <= inp.len(),
        spec_eson_literal(inp@, pos as int) is Soft ==> r is Err && !r->Err_0.committed && r->Err_0.kind == crate::error::ErrorKind::Syntax,
        spec_eson_literal(inp@, pos as int) is Hard ==> r is Err && r->Err_0.committed
            && r->Err_0.kind == ErrorKind::Syntax,
        spec_eson_literal(inp@, pos as int) is Over ==> r is Err && r->Err_0.committed
            && r->Err_0.kind == ErrorKind::Overflow,
    decreases inp@.len() - pos, 50int,
{
    let q = sp_at(inp, pos);
    match crate::numeric::parse_literal_number_at(inp, q) {
        Ok(ve) => Ok(ve),
        Err(err) => {
            if err.committed {
                Err(err)
            } else {
                match crate::boolean::parse_literal_boolean_at(inp, q) {
                    Ok(ve) => Ok(ve),
                    Err(err) => {
                        if err.committed {
                            Err(err)
                        } else {
                            match crate::null::parse_literal_null_at(inp, q) {
                                Ok(ve) => Ok(ve),
                                Err(err) => {
                                    if err.committed {
                                        Err(err)
                                    } else {
                                        eson_literal_at_tail(inp, pos, q)
                                    }
                                },
                            }
                        }
                    },
                }
            }
        },
    }
}

/// The string, list and dictionary alternatives of the constant
/// dispatcher.
#[verifier::rlimit(100)]
fn eson_literal_at_tail(inp: &Vec<char>, pos: usize, q: usize) -> (r: Result<
    (EsonLiteralSegment, usize),
    ParseError,
>)
    requires
        pos <= inp.len(),
        q == spec_sp(inp@, pos as int),
        pos <= q <= inp.len(),
        crate::numeric::spec_parse_literal_number(inp@, q as int) is Soft,
        crate::boolean::spec_parse_literal_boolean(inp@, q as int) is Soft,
        crate::null::spec_parse_literal_null(inp@, q as int) is Soft,
    ensures
        spec_eson_literal(inp@, pos as int) matches Pr::Parsed(v, e) ==> r is Ok && lit_view(
            r->Ok_0.0,
        ) == v && r->Ok_0.1 == e && pos <= e <= inp.len(),
        spec_eson_literal(inp@, pos as int) is Soft ==> r is Err && !r->Err_0.committed && r->Err_0.kind == crate::error::ErrorKind::Syntax,
        spec_eson_literal(inp@, pos as int) is Hard ==> r is Err && r->Err_0.committed
            && r->Err_0.kind == ErrorKind::Syntax,
        spec_eson_literal(inp@, pos as int) is Over ==> r is Err && r->Err_0.committed
            && r->Err_0.kind == ErrorKind::Overflow,
    decreases inp@.len() - pos, 45int,
{
    match crate::string::literal_string_at(inp, q) {
        Ok((t, e)) => Ok((EsonLiteralSegment::Str(crate::chars::string_from_chars(&t)), e)),
        Err(err) => {
            if err.committed {
                Err(err)
            } else {
                match crate::list::literal_lst_at(inp, q) {
                    Ok((elems, e)) => Ok((EsonLiteralSegment::List(elems), e)),
                    Err(err) => {
                        if err.committed {
                            Err(err)
                        } else {
                            match crate::dict::literal_dict_at(inp, q) {
                                Ok((d, e)) => Ok((EsonLiteralSegment::Dict(d), e)),
                                Err(err) => Err(err),
                            }
                        }
                    },
                }
            }
        },
    }
}

// ---------------------------------------------------------------------------
// Entry points on text
// ---------------------------------------------------------------------------

/// Parses one live value at the front of `i` and returns the remaining
/// text with it: a string, number, boolean, null, list, dictionary or
/// unevaluated expression literal, tried in that order after leading
/// whitespace and comments.
pub fn eson(i: &str) -> (r: Result<(String, EsonSegment), ParseError>)
    ensures
        r is Err ==> r->Err_0.context@.len() > 0 && r->Err_0.context@.last()@
            == "eson"@,
        pub_matches(spec_eson(i@, 0), i@, r, |t: EsonSegment| seg_view(t)),
{
    let v = chars_of(i);
    match eson_at(&v, 0) {
        Ok((seg, p)) => {
            let rest = i.substring_char(p, i.unicode_len()).to_owned();
            proof {
                assert(rest@ =~= i@.skip(p as int));
            }
            Ok((rest, seg))
        },
        Err(e) => Err(e.ctx("eson")),
    }
}

/// Parses one constant value at the front of `i`: as [`eson`], with the
/// expression alternative removed and strings restricted to the
/// non-interpolated forms.
pub fn eson_literal(i: &str) -> (r: Result<(String, EsonLiteralSegment), ParseError>)
    ensures
        r is Err ==> r->Err_0.context@.len() > 0 && r->Err_0.context@.last()@
            == "eson_literal"@,
        pub_matches(spec_eson_literal(i@, 0), i@, r, |t: EsonLiteralSegment| lit_view(t)),
{
    let v = chars_of(i);
    match eson_literal_at(&v, 0) {
        Ok((seg, p)) => {
            let rest = i.substring_char(p, i.unicode_len()).to_owned();
            proof {
                assert(rest@ =~= i@.skip(p as int));
            }
            Ok((rest, seg))
        },
        Err(e) => Err(e.ctx("eson_literal")),
    }
}

/// The root production: surrounding whitespace and comments, and, of the
/// value alternatives, only `null` wired up.
pub open spec fn spec_root(s: Seq<char>, pos: int) -> Pr<SegV> {
    let q = spec_sp(s, pos);
    if crate::null::kw_null(s, q) {
        Pr::Parsed(SegV::Null, spec_sp(s, q + 4))
    } else {
        Pr::Soft
    }
}

/// Parses the root element: currently the keyword `null` between
/// skippable whitespace and comments, trailing noise consumed.
pub fn root(i: &str) -> (r: Result<(String, EsonSegment), ParseError>)
    ensures
        r is Err ==> r->Err_0.context@.len() > 0 && r->Err_0.context@.last()@
            == "root"@,
        pub_matches(spec_root(i@, 0), i@, r, |t: EsonSegment| seg_view(t)),
{
    let v = chars_of(i);
    let q = sp_at(&v, 0);
    if crate::null::kw_null_at(&v, q) {
        let e = sp_at(&v, q + 4);
        let rest = i.substring_char(e, i.unicode_len()).to_owned();
        proof {
            assert(rest@ =~= i@.skip(spec_sp(i@, q as int + 4)));
        }
        Ok((rest, EsonSegment::Null))
    } else {
        Err(ParseError::soft(q).ctx("root"))
    }
}

} // verus!
