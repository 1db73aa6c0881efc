use vstd::prelude::*;
use crate::ast::{
    chunk_view, chunks_view, pr_matches, pub_matches, refidx_view, refidxs_view, tok_view,
    toks_view, ExprToken, ExprTokenChunk, RefIndex, RefIndexV, RefPronoun, RefPronounV, TokV,
};
use crate::chars::{
    chars_of, digits_at, digits_end, digits_val, digits_value_at, legal_id_at, slice_chars,
    spec_legal_id, string_from_chars, ws_at, ws_end,
};
use crate::error::{ParseError, Pr};
use crate::string::{literal_string_at, spec_parse_literal_string};

verus! {

broadcast use
    vstd::std_specs::vec::group_vec_axioms,
    vstd::seq::group_seq_axioms,
    crate::chars::lemma_ws_end_le,
    crate::chars::lemma_digits_end_le,
    crate::chars::lemma_id_end_le,
    crate::comments::lemma_spec_sp_le;

// ---------------------------------------------------------------------------
// Keywords
// ---------------------------------------------------------------------------

pub open spec fn kw_self(s: Seq<char>, pos: int) -> bool {
    &&& 0 <= pos
    &&& pos + 4 <= s.len()
    &&& s[pos] == 's'
    &&& s[pos + 1] == 'e'
    &&& s[pos + 2] == 'l'
    &&& s[pos + 3] == 'f'
}

pub open spec fn kw_super(s: Seq<char>, pos: int) -> bool {
    &&& 0 <= pos
    &&& pos + 5 <= s.len()
    &&& s[pos] == 's'
    &&& s[pos + 1] == 'u'
    &&& s[pos + 2] == 'p'
    &&& s[pos + 3] == 'e'
    &&& s[pos + 4] == 'r'
}

fn kw_self_at(inp: &Vec<char>, pos: usize) -> (r: bool)
    requires
        pos <= inp.len(),
    ensures
        r == kw_self(inp@, pos as int),
{
    inp.len() - pos >= 4 && inp[pos] == 's' && inp[pos + 1] == 'e' && inp[pos + 2] == 'l'
        && inp[pos + 3] == 'f'
}

fn kw_super_at(inp: &Vec<char>, pos: usize) -> (r: bool)
    requires
        pos <= inp.len(),
    ensures
        r == kw_super(inp@, pos as int),
{
    inp.len() - pos >= 5 && inp[pos] == 's' && inp[pos + 1] == 'u' && inp[pos + 2] == 'p'
        && inp[pos + 3] == 'e' && inp[pos + 4] == 'r'
}

// ---------------------------------------------------------------------------
// Simple tokens: variables and operator symbols
// ---------------------------------------------------------------------------

/// A bare variable: an identifier with insignificant whitespace around it.
pub open spec fn spec_var(s: Seq<char>, pos: int) -> Pr<TokV> {
    let q = ws_end(s, pos);
    match spec_legal_id(s, q) {
        Option::Some(ie) => Pr::Parsed(TokV::Var(s.subrange(q, ie)), ws_end(s, ie)),
        Option::None => Pr::Soft,
    }
}

pub(crate) fn var_at(inp: &Vec<char>, pos: usize) -> (r: Result<(ExprToken, usize), ParseError>)
    requires
        pos <= inp.len(),
    ensures
        pr_matches(
            spec_var(inp@, pos as int),
            r,
            |t: ExprToken| tok_view(t),
            pos as int,
            inp@.len() as int,
        ),
{
    let q = ws_at(inp, pos);
    match legal_id_at(inp, q) {
        Some(ie) => {
            let name_v = slice_chars(inp, q, ie);
            let name = string_from_chars(&name_v);
            Ok((ExprToken::Var(name), ws_at(inp, ie)))
        },
        None => Err(ParseError::soft(q)),
    }
}

/// An operator symbol with insignificant whitespace around it, two-character
/// symbols before their one-character prefixes.  The caret is recognised
/// but has no token of its own: it is reported as a committed failure
/// instead of a panic.
pub open spec fn spec_operator(s: Seq<char>, pos: int) -> Pr<TokV> {
    let q = ws_end(s, pos);
    if 0 <= q && q + 1 < s.len() && s[q] == '=' && s[q + 1] == '=' {
        Pr::Parsed(TokV::Eq, ws_end(s, q + 2))
    } else if 0 <= q && q + 1 < s.len() && s[q] == '!' && s[q + 1] == '=' {
        Pr::Parsed(TokV::Ne, ws_end(s, q + 2))
    } else if 0 <= q && q + 1 < s.len() && s[q] == '<' && s[q + 1] == '=' {
        Pr::Parsed(TokV::Le, ws_end(s, q + 2))
    } else if 0 <= q && q + 1 < s.len() && s[q] == '>' && s[q + 1] == '=' {
        Pr::Parsed(TokV::Ge, ws_end(s, q + 2))
    } else if 0 <= q && q + 1 < s.len() && s[q] == '&' && s[q + 1] == '&' {
        Pr::Parsed(TokV::And, ws_end(s, q + 2))
    } else if 0 <= q && q + 1 < s.len() && s[q] == '|' && s[q + 1] == '|' {
        Pr::Parsed(TokV::Or, ws_end(s, q + 2))
    } else if 0 <= q && q < s.len() && s[q] == '!' {
        Pr::Parsed(TokV::Not, ws_end(s, q + 1))
    } else if 0 <= q && q < s.len() && s[q] == '>' {
        Pr::Parsed(TokV::Gt, ws_end(s, q + 1))
    } else if 0 <= q && q < s.len() && s[q] == '<' {
        Pr::Parsed(TokV::Lt, ws_end(s, q + 1))
    } else if 0 <= q && q < s.len() && s[q] == '+' {
        Pr::Parsed(TokV::Plus, ws_end(s, q + 1))
    } else if 0 <= q && q < s.len() && s[q] == '-' {
        Pr::Parsed(TokV::Minus, ws_end(s, q + 1))
    } else if 0 <= q && q < s.len() && s[q] == '*' {
        Pr::Parsed(TokV::Mul, ws_end(s, q + 1))
    } else if 0 <= q && q < s.len() && s[q] == '/' {
        Pr::Parsed(TokV::Div, ws_end(s, q + 1))
    } else if 0 <= q && q < s.len() && s[q] == '%' {
        Pr::Parsed(TokV::Mod, ws_end(s, q + 1))
    } else if 0 <= q && q < s.len() && s[q] == '^' {
        Pr::Hard
    } else {
        Pr::Soft
    }
}

pub(crate) fn operator_at(inp: &Vec<char>, pos: usize) -> (r: Result<
    (ExprToken, usize),
    ParseError,
>)
    requires
        pos <= inp.len(),
    ensures
        pr_matches(
            spec_operator(inp@, pos as int),
            r,
            |t: ExprToken| tok_view(t),
            pos as int,
            inp@.len() as int,
        ),
{
    let q = ws_at(inp, pos);
    if q < inp.len() && inp[q] == '=' && q + 1 < inp.len() && inp[q + 1] == '=' {
        Ok((ExprToken::Eq, ws_at(inp, q + 2)))
    } else if q < inp.len() && inp[q] == '!' && q + 1 < inp.len() && inp[q + 1] == '=' {
        Ok((ExprToken::Ne, ws_at(inp, q + 2)))
    } else if q < inp.len() && inp[q] == '<' && q + 1 < inp.len() && inp[q + 1] == '=' {
        Ok((ExprToken::Le, ws_at(inp, q + 2)))
    } else if q < inp.len() && inp[q] == '>' && q + 1 < inp.len() && inp[q + 1] == '=' {
        Ok((ExprToken::Ge, ws_at(inp, q + 2)))
    } else if q < inp.len() && inp[q] == '&' && q + 1 < inp.len() && inp[q + 1] == '&' {
        Ok((ExprToken::And, ws_at(inp, q + 2)))
    } else if q < inp.len() && inp[q] == '|' && q + 1 < inp.len() && inp[q + 1] == '|' {
        Ok((ExprToken::Or, ws_at(inp, q + 2)))
    } else if q < inp.len() && inp[q] == '!' {
        Ok((ExprToken::Not, ws_at(inp, q + 1)))
    } else if q < inp.len() && inp[q] == '>' {
        Ok((ExprToken::Gt, ws_at(inp, q + 1)))
    } else if q < inp.len() && inp[q] == '<' {
        Ok((ExprToken::Lt, ws_at(inp, q + 1)))
    } else if q < inp.len() && inp[q] == '+' {
        Ok((ExprToken::Plus, ws_at(inp, q + 1)))
    } else if q < inp.len() && inp[q] == '-' {
        Ok((ExprToken::Minus, ws_at(inp, q + 1)))
    } else if q < inp.len() && inp[q] == '*' {
        Ok((ExprToken::Mul, ws_at(inp, q + 1)))
    } else if q < inp.len() && inp[q] == '/' {
        Ok((ExprToken::Div, ws_at(inp, q + 1)))
    } else if q < inp.len() && inp[q] == '%' {
        Ok((ExprToken::Mod, ws_at(inp, q + 1)))
    } else if q < inp.len() && inp[q] == '^' {
        Err(ParseError::hard(q))
    } else {
        Err(ParseError::soft(q))
    }
}

// ---------------------------------------------------------------------------
// References
// ---------------------------------------------------------------------------

/// One path step after a reference head: `.name`, `["name"]` or `[N]` with
/// N a 16-bit signed index; whitespace around the pieces is insignificant.
/// An unparsable or out-of-range step is a soft failure, which simply ends
/// the path.
pub open spec fn spec_ref_elem(s: Seq<char>, pos: int) -> Pr<RefIndexV> {
    let q = ws_end(s, pos);
    if 0 <= q && q < s.len() && s[q] == '.' {
        let q2 = ws_end(s, q + 1);
        match spec_legal_id(s, q2) {
            Option::Some(ie) => Pr::Parsed(RefIndexV::Str(s.subrange(q2, ie)), ws_end(s, ie)),
            Option::None => Pr::Soft,
        }
    } else if 0 <= q && q < s.len() && s[q] == '[' {
        let q2 = ws_end(s, q + 1);
        match spec_parse_literal_string(s, q2) {
            Pr::Parsed(str, e) => {
                let q3 = ws_end(s, e);
                if q3 < s.len() && s[q3] == ']' {
                    Pr::Parsed(RefIndexV::Str(str), ws_end(s, q3 + 1))
                } else {
                    spec_ref_elem_int(s, q2)
                }
            },
            _ => spec_ref_elem_int(s, q2),
        }
    } else {
        Pr::Soft
    }
}

/// The numeric variant of a path step body, after the opening bracket.
pub open spec fn spec_ref_elem_int(s: Seq<char>, q2: int) -> Pr<RefIndexV> {
    let de = digits_end(s, q2, 10);
    if de > q2 && digits_val(s, q2, de, 10) <= i16::MAX {
        let q3 = ws_end(s, de);
        if q3 < s.len() && s[q3] == ']' {
            Pr::Parsed(RefIndexV::Int(digits_val(s, q2, de, 10) as i16), ws_end(s, q3 + 1))
        } else {
            Pr::Soft
        }
    } else {
        Pr::Soft
    }
}

fn ref_elem_int_at(inp: &Vec<char>, q2: usize) -> (r: Result<(RefIndex, usize), ParseError>)
    requires
        q2 <= inp.len(),
    ensures
        pr_matches(
            spec_ref_elem_int(inp@, q2 as int),
            r,
            |t: RefIndex| refidx_view(t),
            q2 as int,
            inp@.len() as int,
        ),
{
    let de = digits_at(inp, q2, 10);
    if de > q2 {
        match digits_value_at(inp, q2, de, 10) {
            Some(v) if v <= 32767 => {
                let q3 = ws_at(inp, de);
                if q3 < inp.len() && inp[q3] == ']' {
                    Ok((RefIndex::Int(v as i16), ws_at(inp, q3 + 1)))
                } else {
                    Err(ParseError::soft(q3))
                }
            },
            _ => Err(ParseError::soft(q2)),
        }
    } else {
        Err(ParseError::soft(q2))
    }
}

fn ref_elem_at(inp: &Vec<char>, pos: usize) -> (r: Result<(RefIndex, usize), ParseError>)
    requires
        pos <= inp.len(),
    ensures
        pr_matches(
            spec_ref_elem(inp@, pos as int),
            r,
            |t: RefIndex| refidx_view(t),
            pos as int,
            inp@.len() as int,
        ),
{
    let q = ws_at(inp, pos);
    if q < inp.len() && inp[q] == '.' {
        let q2 = ws_at(inp, q + 1);
        match legal_id_at(inp, q2) {
            Some(ie) => {
                let name_v = slice_chars(inp, q2, ie);
                Ok((RefIndex::Str(string_from_chars(&name_v)), ws_at(inp, ie)))
            },
            None => Err(ParseError::soft(q2)),
        }
    } else if q < inp.len() && inp[q] == '[' {
        let q2 = ws_at(inp, q + 1);
        match literal_string_at(inp, q2) {
            Ok((str_v, e)) => {
                let q3 = ws_at(inp, e);
                if q3 < inp.len() && inp[q3] == ']' {
                    Ok((RefIndex::Str(string_from_chars(&str_v)), ws_at(inp, q3 + 1)))
                } else {
                    ref_elem_int_at(inp, q2)
                }
            },
            Err(_) => ref_elem_int_at(inp, q2),
        }
    } else {
        Err(ParseError::soft(q))
    }
}

/// The path steps after a reference head: steps are taken until one fails
/// to parse; nothing before the first failing step is consumed by it.
pub open spec fn spec_ref_elems(s: Seq<char>, pos: int) -> (Seq<RefIndexV>, int)
    decreases s.len() - pos,
{
    match spec_ref_elem(s, pos) {
        Pr::Parsed(x, e) => if pos < e <= s.len() {
            let (rest, e2) = spec_ref_elems(s, e);
            (seq![x] + rest, e2)
        } else {
            (Seq::empty(), pos)
        },
        _ => (Seq::empty(), pos),
    }
}

fn ref_elems_at(inp: &Vec<char>, pos: usize) -> (r: (Vec<RefIndex>, usize))
    requires
        pos <= inp.len(),
    ensures
        (refidxs_view(r.0@), r.1 as int) == spec_ref_elems(inp@, pos as int),
        pos <= r.1 <= inp.len(),
    decreases inp@.len() - pos,
{
    match ref_elem_at(inp, pos) {
        Ok((x, e)) => {
            let ghost xg = x;
            if e <= pos {
                return (Vec::new(), pos);
            }
            let (rest, e2) = ref_elems_at(inp, e);
            let ghost restg = rest@;
            let mut out: Vec<RefIndex> = Vec::new();
            out.push(x);
            let mut rest2 = rest;
            out.append(&mut rest2);
            proof {
                assert(out@ =~= seq![xg] + restg);
                assert(refidxs_view(out@) =~= seq![refidx_view(xg)] + refidxs_view(restg));
            }
            (out, e2)
        },
        Err(_) => (Vec::new(), pos),
    }
}

/// A reference token: `self`, `super` or `$`, then its path steps.
pub open spec fn spec_reference(s: Seq<char>, pos: int) -> Pr<TokV> {
    if kw_self(s, pos) {
        let (el, e) = spec_ref_elems(s, pos + 4);
        Pr::Parsed(TokV::Ref(RefPronounV::Curr(el)), e)
    } else if kw_super(s, pos) {
        let (el, e) = spec_ref_elems(s, pos + 5);
        Pr::Parsed(TokV::Ref(RefPronounV::Super(el)), e)
    } else if 0 <= pos && pos < s.len() && s[pos] == '$' {
        let (el, e) = spec_ref_elems(s, pos + 1);
        Pr::Parsed(TokV::Ref(RefPronounV::Root(el)), e)
    } else {
        Pr::Soft
    }
}

pub(crate) fn reference_at(inp: &Vec<char>, pos: usize) -> (r: Result<
    (ExprToken, usize),
    ParseError,
>)
    requires
        pos <= inp.len(),
    ensures
        pr_matches(
            spec_reference(inp@, pos as int),
            r,
            |t: ExprToken| tok_view(t),
            pos as int,
            inp@.len() as int,
        ),
{
    if kw_self_at(inp, pos) {
        let (el, e) = ref_elems_at(inp, pos + 4);
        Ok((ExprToken::Ref(RefPronoun::Curr(el)), e))
    } else if kw_super_at(inp, pos) {
        let (el, e) = ref_elems_at(inp, pos + 5);
        Ok((ExprToken::Ref(RefPronoun::Super(el)), e))
    } else if pos < inp.len() && inp[pos] == '$' {
        let (el, e) = ref_elems_at(inp, pos + 1);
        Ok((ExprToken::Ref(RefPronoun::Root(el)), e))
    } else {
        Err(ParseError::soft(pos))
    }
}

// ---------------------------------------------------------------------------
// Values, function calls, and the token run
// ---------------------------------------------------------------------------

/// A literal value in token position: the full value grammar.
pub open spec fn spec_value(s: Seq<char>, pos: int) -> Pr<TokV>
    decreases s.len() - pos, 60int,
{
    match crate::spec_eson(s, pos) {
        Pr::Parsed(v, e) => Pr::Parsed(TokV::Val(v), e),
        Pr::Soft => Pr::Soft,
        Pr::Hard => Pr::Hard,
        Pr::Over => Pr::Over,
    }
}

pub(crate) fn value_at(inp: &Vec<char>, pos: usize) -> (r: Result<(ExprToken, usize), ParseError>)
    requires
        pos <= inp.len(),
    ensures
        pr_matches(
            spec_value(inp@, pos as int),
            r,
            |t: ExprToken| tok_view(t),
            pos as int,
            inp@.len() as int,
        ),
    decreases inp@.len() - pos, 60int,
{
    match crate::eson_at(inp, pos) {
        Ok((v, e)) => Ok((ExprToken::Val(v), e)),
        Err(e) => Err(e),
    }
}

/// A function call: an identifier, `(`, comma-separated token chunks, `)`;
/// whitespace is insignificant throughout, including after the call.
pub open spec fn spec_fn_call(s: Seq<char>, pos: int) -> Pr<TokV>
    decreases s.len() - pos, 60int,
{
    match spec_legal_id(s, pos) {
        Option::None => Pr::Soft,
        Option::Some(ie) => {
            let q = ws_end(s, ie);
            if q < s.len() && s[q] == '(' {
                let q2 = ws_end(s, q + 1);
                match spec_arg_list(s, q2) {
                    Pr::Parsed(args, e) => {
                        let q3 = ws_end(s, e);
                        if q3 < s.len() && s[q3] == ')' {
                            Pr::Parsed(
                                TokV::FnCall(s.subrange(pos, ie), args),
                                ws_end(s, q3 + 1),
                            )
                        } else {
                            Pr::Soft
                        }
                    },
                    Pr::Soft => Pr::Soft,
                    Pr::Hard => Pr::Hard,
                    Pr::Over => Pr::Over,
                }
            } else {
                Pr::Soft
            }
        },
    }
}

pub(crate) fn fn_call_at(inp: &Vec<char>, pos: usize) -> (r: Result<
    (ExprToken, usize),
    ParseError,
>)
    requires
        pos <= inp.len(),
    ensures
        pr_matches(
            spec_fn_call(inp@, pos as int),
            r,
            |t: ExprToken| tok_view(t),
            pos as int,
            inp@.len() as int,
        ),
    decreases inp@.len() - pos, 60int,
{
    match legal_id_at(inp, pos) {
        None => Err(ParseError::soft(pos)),
        Some(ie) => {
            let q = ws_at(inp, ie);
            if q < inp.len() && inp[q] == '(' {
                let q2 = ws_at(inp, q + 1);
                match arg_list_at(inp, q2) {
                    Ok((args, e)) => {
                        let q3 = ws_at(inp, e);
                        if q3 < inp.len() && inp[q3] == ')' {
                            let name_v = slice_chars(inp, pos, ie);
                            Ok((
                                ExprToken::FnCall(string_from_chars(&name_v), args),
                                ws_at(inp, q3 + 1),
                            ))
                        } else {
                            Err(ParseError::soft(q3))
                        }
                    },
                    Err(e) => Err(e),
                }
            } else {
                Err(ParseError::soft(q))
            }
        },
    }
}

/// The comma-separated argument chunks of a call; may be empty.
pub open spec fn spec_arg_list(s: Seq<char>, pos: int) -> Pr<Seq<Seq<TokV>>>
    decreases s.len() - pos, 140int,
{
    match spec_token_set(s, pos) {
        Pr::Soft => Pr::Parsed(Seq::empty(), pos),
        Pr::Hard => Pr::Hard,
        Pr::Over => Pr::Over,
        Pr::Parsed(toks, e) => if pos < e <= s.len() {
            match spec_arg_more(s, e) {
                Pr::Parsed(rest, e2) => Pr::Parsed(seq![toks] + rest, e2),
                Pr::Soft => Pr::Soft,
                Pr::Hard => Pr::Hard,
                Pr::Over => Pr::Over,
            }
        } else {
            Pr::Parsed(Seq::empty(), pos)
        },
    }
}

/// Further arguments: `, chunk` repeated; a comma not followed by a chunk
/// is left unconsumed.
pub open spec fn spec_arg_more(s: Seq<char>, pos: int) -> Pr<Seq<Seq<TokV>>>
    decreases s.len() - pos, 150int,
{
    let q = ws_end(s, pos);
    if 0 <= q && q < s.len() && s[q] == ',' {
        let q2 = ws_end(s, q + 1);
        match spec_token_set(s, q2) {
            Pr::Soft => Pr::Parsed(Seq::empty(), pos),
            Pr::Hard => Pr::Hard,
            Pr::Over => Pr::Over,
            Pr::Parsed(toks, e) => if pos < e <= s.len() {
                match spec_arg_more(s, e) {
                    Pr::Parsed(rest, e2) => Pr::Parsed(seq![toks] + rest, e2),
                    Pr::Soft => Pr::Soft,
                    Pr::Hard => Pr::Hard,
                    Pr::Over => Pr::Over,
                }
            } else {
                Pr::Parsed(Seq::empty(), pos)
            },
        }
    } else {
        Pr::Parsed(Seq::empty(), pos)
    }
}

fn arg_list_at(inp: &Vec<char>, pos: usize) -> (r: Result<
    (Vec<ExprTokenChunk>, usize),
    ParseError,
>)
    requires
        pos <= inp.len(),
    ensures
        spec_arg_list(inp@, pos as int) matches Pr::Parsed(args, e) ==> r is Ok && chunks_view(
            r->Ok_0.0@,
        ) == args && r->Ok_0.1 == e && pos <= e <= inp.len(),
        spec_arg_list(inp@, pos as int) is Hard ==> r is Err && r->Err_0.committed
            && r->Err_0.kind == crate::error::ErrorKind::Syntax,
        spec_arg_list(inp@, pos as int) is Over ==> r is Err && r->Err_0.committed
            && r->Err_0.kind == crate::error::ErrorKind::Overflow,
        spec_arg_list(inp@, pos as int) is Soft ==> r is Err && !r->Err_0.committed && r->Err_0.kind == crate::error::ErrorKind::Syntax,
    decreases inp@.len() - pos, 140int,
{
    match token_set_at(inp, pos) {
        Err(e) => {
            if e.committed {
                Err(e)
            } else {
                Ok((Vec::new(), pos))
            }
        },
        Ok((toks, e)) => {
            let ghost tg = toks;
            if e > pos {
                match arg_more_at(inp, e) {
                    Ok((rest, e2)) => {
                        let ghost restg = rest@;
                        let mut out: Vec<ExprTokenChunk> = Vec::new();
                        out.push(toks);
                        let mut rest2 = rest;
                        out.append(&mut rest2);
                        proof {
                            assert(out@ =~= seq![tg] + restg);
                            assert(chunks_view(out@) =~= seq![chunk_view(tg)] + chunks_view(
                                restg,
                            ));
                        }
                        Ok((out, e2))
                    },
                    Err(e2) => Err(e2),
                }
            } else {
                Ok((Vec::new(), pos))
            }
        },
    }
}

fn arg_more_at(inp: &Vec<char>, pos: usize) -> (r: Result<(Vec<ExprTokenChunk>, usize), ParseError>)
    requires
        pos <= inp.len(),
    ensures
        spec_arg_more(inp@, pos as int) matches Pr::Parsed(args, e) ==> r is Ok && chunks_view(
            r->Ok_0.0@,
        ) == args && r->Ok_0.1 == e && pos <= e <= inp.len(),
        spec_arg_more(inp@, pos as int) is Hard ==> r is Err && r->Err_0.committed
            && r->Err_0.kind == crate::error::ErrorKind::Syntax,
        spec_arg_more(inp@, pos as int) is Over ==> r is Err && r->Err_0.committed
            && r->Err_0.kind == crate::error::ErrorKind::Overflow,
        spec_arg_more(inp@, pos as int) is Soft ==> r is Err && !r->Err_0.committed && r->Err_0.kind == crate::error::ErrorKind::Syntax,
    decreases inp@.len() - pos, 150int,
{
    let q = ws_at(inp, pos);
    if q < inp.len() && inp[q] == ',' {
        let q2 = ws_at(inp, q + 1);
        match token_set_at(inp, q2) {
            Err(e) => {
                if e.committed {
                    Err(e)
                } else {
                    Ok((Vec::new(), pos))
                }
            },
            Ok((toks, e)) => {
                let ghost tg = toks;
                match arg_more_at(inp, e) {
                    Ok((rest, e2)) => {
                        let ghost restg = rest@;
                        let mut out: Vec<ExprTokenChunk> = Vec::new();
                        out.push(toks);
                        let mut rest2 = rest;
                        out.append(&mut rest2);
                        proof {
                            assert(out@ =~= seq![tg] + restg);
                            assert(chunks_view(out@) =~= seq![chunk_view(tg)] + chunks_view(restg));
                        }
                        Ok((out, e2))
                    },
                    Err(e2) => Err(e2),
                }
            },
        }
    } else {
        Ok((Vec::new(), pos))
    }
}

/// One token, by the fixed priority: function call, reference, literal
/// value, variable, operator symbol.
pub open spec fn spec_token(s: Seq<char>, pos: int) -> Pr<TokV>
    decreases s.len() - pos, 120int,
{
    match spec_fn_call(s, pos) {
        Pr::Parsed(t, e) => Pr::Parsed(t, e),
        Pr::Hard => Pr::Hard,
        Pr::Over => Pr::Over,
        Pr::Soft => match spec_reference(s, pos) {
            Pr::Parsed(t, e) => Pr::Parsed(t, e),
            Pr::Hard => Pr::Hard,
            Pr::Over => Pr::Over,
            Pr::Soft => match spec_value(s, pos) {
                Pr::Parsed(t, e) => Pr::Parsed(t, e),
                Pr::Hard => Pr::Hard,
                Pr::Over => Pr::Over,
                Pr::Soft => match spec_var(s, pos) {
                    Pr::Parsed(t, e) => Pr::Parsed(t, e),
                    Pr::Hard => Pr::Hard,
                    Pr::Over => Pr::Over,
                    Pr::Soft => spec_operator(s, pos),
                },
            },
        },
    }
}

fn token_at(inp: &Vec<char>, pos: usize) -> (r: Result<(ExprToken, usize), ParseError>)
    requires
        pos <= inp.len(),
    ensures
        pr_matches(
            spec_token(inp@, pos as int),
            r,
            |t: ExprToken| tok_view(t),
            pos as int,
            inp@.len() as int,
        ),
    decreases inp@.len() - pos, 120int,
{
    match fn_call_at(inp, pos) {
        Ok(te) => Ok(te),
        Err(e) => {
            if e.committed {
                Err(e)
            } else {
                match reference_at(inp, pos) {
                    Ok(te) => Ok(te),
                    Err(e) => {
                        if e.committed {
                            Err(e)
                        } else {
                            match value_at(inp, pos) {
                                Ok(te) => Ok(te),
                                Err(e) => {
                                    if e.committed {
                                        Err(e)
                                    } else {
                                        match var_at(inp, pos) {
                                            Ok(te) => Ok(te),
                                            Err(e) => {
                                                if e.committed {
                                                    Err(e)
                                                } else {
                                                    operator_at(inp, pos)
                                                }
                                            },
                                        }
                                    }
                                },
                            }
                        }
                    },
                }
            }
        },
    }
}

/// A non-empty run of tokens: tokens are read until one fails to parse; at
/// least one is required.
pub open spec fn spec_token_set(s: Seq<char>, pos: int) -> Pr<Seq<TokV>>
    decreases s.len() - pos, 130int,
{
    match spec_token(s, pos) {
        Pr::Soft => Pr::Soft,
        Pr::Hard => Pr::Hard,
        Pr::Over => Pr::Over,
        Pr::Parsed(t, e) => if pos < e <= s.len() {
            match spec_tokens_more(s, e) {
                Pr::Parsed(rest, e2) => Pr::Parsed(seq![t] + rest, e2),
                Pr::Soft => Pr::Soft,
                Pr::Hard => Pr::Hard,
                Pr::Over => Pr::Over,
            }
        } else {
            Pr::Parsed(seq![t], e)
        },
    }
}

pub open spec fn spec_tokens_more(s: Seq<char>, pos: int) -> Pr<Seq<TokV>>
    decreases s.len() - pos, 140int,
{
    match spec_token(s, pos) {
        Pr::Soft => Pr::Parsed(Seq::empty(), pos),
        Pr::Hard => Pr::Hard,
        Pr::Over => Pr::Over,
        Pr::Parsed(t, e) => if pos < e <= s.len() {
            match spec_tokens_more(s, e) {
                Pr::Parsed(rest, e2) => Pr::Parsed(seq![t] + rest, e2),
                Pr::Soft => Pr::Soft,
                Pr::Hard => Pr::Hard,
                Pr::Over => Pr::Over,
            }
        } else {
            Pr::Parsed(seq![t], e)
        },
    }
}

pub(crate) fn token_set_at(inp: &Vec<char>, pos: usize) -> (r: Result<
    (ExprTokenChunk, usize),
    ParseError,
>)
    requires
        pos <= inp.len(),
    ensures
        spec_token_set(inp@, pos as int) matches Pr::Parsed(toks, e) ==> r is Ok && chunk_view(
            r->Ok_0.0,
        ) == toks && r->Ok_0.1 == e && pos <= e <= inp.len(),
        spec_token_set(inp@, pos as int) is Soft ==> r is Err && !r->Err_0.committed && r->Err_0.kind == crate::error::ErrorKind::Syntax,
        spec_token_set(inp@, pos as int) is Hard ==> r is Err && r->Err_0.committed
            && r->Err_0.kind == crate::error::ErrorKind::Syntax,
        spec_token_set(inp@, pos as int) is Over ==> r is Err && r->Err_0.committed
            && r->Err_0.kind == crate::error::ErrorKind::Overflow,
    decreases inp@.len() - pos, 130int,
{
    match token_at(inp, pos) {
        Err(e) => Err(e),
        Ok((t, e)) => {
            let ghost tg = t;
            if e > pos {
                match tokens_more_at(inp, e) {
                    Err(e2) => Err(e2),
                    Ok((rest, e2)) => {
                        let ghost restg = rest@;
                        let mut out: Vec<ExprToken> = Vec::new();
                        out.push(t);
                        let mut rest2 = rest;
                        out.append(&mut rest2);
                        proof {
                            assert(out@ =~= seq![tg] + restg);
                            assert(toks_view(out@) =~= seq![tok_view(tg)] + toks_view(restg));
                        }
                        Ok((ExprTokenChunk(out), e2))
                    },
                }
            } else {
                let mut out: Vec<ExprToken> = Vec::new();
                out.push(t);
                proof {
                    assert(toks_view(out@) =~= seq![tok_view(tg)]);
                }
                Ok((ExprTokenChunk(out), e))
            }
        },
    }
}

fn tokens_more_at(inp: &Vec<char>, pos: usize) -> (r: Result<(Vec<ExprToken>, usize), ParseError>)
    requires
        pos <= inp.len(),
    ensures
        spec_tokens_more(inp@, pos as int) matches Pr::Parsed(toks, e) ==> r is Ok && toks_view(
            r->Ok_0.0@,
        ) == toks && r->Ok_0.1 == e && pos <= e <= inp.len(),
        spec_tokens_more(inp@, pos as int) is Soft ==> r is Err && !r->Err_0.committed && r->Err_0.kind == crate::error::ErrorKind::Syntax,
        spec_tokens_more(inp@, pos as int) is Hard ==> r is Err && r->Err_0.committed
            && r->Err_0.kind == crate::error::ErrorKind::Syntax,
        spec_tokens_more(inp@, pos as int) is Over ==> r is Err && r->Err_0.committed
            && r->Err_0.kind == crate::error::ErrorKind::Overflow,
    decreases inp@.len() - pos, 140int,
{
    match token_at(inp, pos) {
        Err(e) => {
            if e.committed {
                Err(e)
            } else {
                Ok((Vec::new(), pos))
            }
        },
        Ok((t, e)) => {
            let ghost tg = t;
            if e > pos {
                match tokens_more_at(inp, e) {
                    Err(e2) => Err(e2),
                    Ok((rest, e2)) => {
                        let ghost restg = rest@;
                        let mut out: Vec<ExprToken> = Vec::new();
                        out.push(t);
                        let mut rest2 = rest;
                        out.append(&mut rest2);
                        proof {
                            assert(out@ =~= seq![tg] + restg);
                            assert(toks_view(out@) =~= seq![tok_view(tg)] + toks_view(restg));
                        }
                        Ok((out, e2))
                    },
                }
            } else {
                let mut out: Vec<ExprToken> = Vec::new();
                out.push(t);
                proof {
                    assert(toks_view(out@) =~= seq![tok_view(tg)]);
                }
                Ok((out, e))
            }
        },
    }
}

// ---------------------------------------------------------------------------
// The expression literal
// ---------------------------------------------------------------------------

/// An expression literal: `${`, a non-empty token run, `}`.
pub open spec fn spec_parse_expr_token_chunk(s: Seq<char>, pos: int) -> Pr<Seq<TokV>>
    decreases s.len() - pos, 30int,
{
    if 0 <= pos && pos + 1 < s.len() && s[pos] == '$' && s[pos + 1] == '{' {
        let q = ws_end(s, pos + 2);
        match spec_token_set(s, q) {
            Pr::Soft => Pr::Soft,
            Pr::Hard => Pr::Hard,
            Pr::Over => Pr::Over,
            Pr::Parsed(toks, e) => {
                let q2 = ws_end(s, e);
                if 0 <= q2 && q2 < s.len() && s[q2] == '}' {
                    Pr::Parsed(toks, q2 + 1)
                } else {
                    Pr::Soft
                }
            },
        }
    } else {
        Pr::Soft
    }
}

pub(crate) fn expr_chunk_at(inp: &Vec<char>, pos: usize) -> (r: Result<
    (ExprTokenChunk, usize),
    ParseError,
>)
    requires
        pos <= inp.len(),
    ensures
        spec_parse_expr_token_chunk(inp@, pos as int) matches Pr::Parsed(toks, e) ==> r is Ok
            && chunk_view(r->Ok_0.0) == toks && r->Ok_0.1 == e && pos <= e <= inp.len(),
        spec_parse_expr_token_chunk(inp@, pos as int) is Soft ==> r is Err && !r->Err_0.committed && r->Err_0.kind == crate::error::ErrorKind::Syntax,
        spec_parse_expr_token_chunk(inp@, pos as int) is Hard ==> r is Err && r->Err_0.committed
            && r->Err_0.kind == crate::error::ErrorKind::Syntax,
        spec_parse_expr_token_chunk(inp@, pos as int) is Over ==> r is Err && r->Err_0.committed
            && r->Err_0.kind == crate::error::ErrorKind::Overflow,
    decreases inp@.len() - pos, 30int,
{
    if pos < inp.len() && inp[pos] == '$' && pos + 1 < inp.len() && inp[pos + 1] == '{' {
        let q = ws_at(inp, pos + 2);
        match token_set_at(inp, q) {
            Err(e) => Err(e),
            Ok((toks, e)) => {
                let q2 = ws_at(inp, e);
                if q2 < inp.len() && inp[q2] == '}' {
                    Ok((toks, q2 + 1))
                } else {
                    Err(ParseError::soft(q2))
                }
            },
        }
    } else {
        Err(ParseError::soft(pos))
    }
}

// ---------------------------------------------------------------------------
// Entry points on text
// ---------------------------------------------------------------------------

/// Parses one bare-variable token at the front of `i`.
pub fn var(i: &str) -> (r: Result<(String, ExprToken), ParseError>)
    ensures
        r is Err ==> r->Err_0.context@.len() > 0 && r->Err_0.context@.last()@
            == "var"@,
        pub_matches(spec_var(i@, 0), i@, r, |t: ExprToken| tok_view(t)),
{
    let v = chars_of(i);
    match var_at(&v, 0) {
        Ok((t, p)) => {
            let rest = i.substring_char(p, i.unicode_len()).to_owned();
            proof {
                assert(rest@ =~= i@.skip(p as int));
            }
            Ok((rest, t))
        },
        Err(e) => Err(e.ctx("var")),
    }
}

/// Parses one operator token at the front of `i`.
pub fn operator(i: &str) -> (r: Result<(String, ExprToken), ParseError>)
    ensures
        r is Err ==> r->Err_0.context@.len() > 0 && r->Err_0.context@.last()@
            == "symbol"@,
        pub_matches(spec_operator(i@, 0), i@, r, |t: ExprToken| tok_view(t)),
{
    let v = chars_of(i);
    match operator_at(&v, 0) {
        Ok((t, p)) => {
            let rest = i.substring_char(p, i.unicode_len()).to_owned();
            proof {
                assert(rest@ =~= i@.skip(p as int));
            }
            Ok((rest, t))
        },
        Err(e) => Err(e.ctx("symbol")),
    }
}

/// Parses one reference token at the front of `i`: `self`, `super` or `$`
/// with its path steps.
pub fn reference(i: &str) -> (r: Result<(String, ExprToken), ParseError>)
    ensures
        r is Err ==> r->Err_0.context@.len() > 0 && r->Err_0.context@.last()@
            == "reference"@,
        pub_matches(spec_reference(i@, 0), i@, r, |t: ExprToken| tok_view(t)),
{
    let v = chars_of(i);
    match reference_at(&v, 0) {
        Ok((t, p)) => {
            let rest = i.substring_char(p, i.unicode_len()).to_owned();
            proof {
                assert(rest@ =~= i@.skip(p as int));
            }
            Ok((rest, t))
        },
        Err(e) => Err(e.ctx("reference")),
    }
}

/// Parses one literal value in token position at the front of `i`.
pub fn value(i: &str) -> (r: Result<(String, ExprToken), ParseError>)
    ensures
        r is Err ==> r->Err_0.context@.len() > 0 && r->Err_0.context@.last()@
            == "value"@,
        pub_matches(spec_value(i@, 0), i@, r, |t: ExprToken| tok_view(t)),
{
    let v = chars_of(i);
    match value_at(&v, 0) {
        Ok((t, p)) => {
            let rest = i.substring_char(p, i.unicode_len()).to_owned();
            proof {
                assert(rest@ =~= i@.skip(p as int));
            }
            Ok((rest, t))
        },
        Err(e) => Err(e.ctx("value")),
    }
}

/// Parses one function-call token at the front of `i`.
pub fn fn_call(i: &str) -> (r: Result<(String, ExprToken), ParseError>)
    ensures
        r is Err ==> r->Err_0.context@.len() > 0 && r->Err_0.context@.last()@
            == "fn_call"@,
        pub_matches(spec_fn_call(i@, 0), i@, r, |t: ExprToken| tok_view(t)),
{
    let v = chars_of(i);
    match fn_call_at(&v, 0) {
        Ok((t, p)) => {
            let rest = i.substring_char(p, i.unicode_len()).to_owned();
            proof {
                assert(rest@ =~= i@.skip(p as int));
            }
            Ok((rest, t))
        },
        Err(e) => Err(e.ctx("fn_call")),
    }
}

/// Parses a non-empty token run at the front of `i`.
pub fn expr_token_set(i: &str) -> (r: Result<(String, ExprTokenChunk), ParseError>)
    ensures
        r is Err ==> r->Err_0.context@.len() > 0 && r->Err_0.context@.last()@
            == "expr_tokens"@,
        spec_token_set(i@, 0) matches Pr::Parsed(toks, e) ==> r is Ok && chunk_view(r->Ok_0.1)
            == toks && r->Ok_0.0@ == i@.skip(e),
        spec_token_set(i@, 0) is Soft ==> r is Err && !r->Err_0.committed,
        spec_token_set(i@, 0) is Hard ==> r is Err && r->Err_0.committed,
        spec_token_set(i@, 0) is Over ==> r is Err && r->Err_0.committed && r->Err_0.kind
            == crate::error::ErrorKind::Overflow,
{
    let v = chars_of(i);
    match token_set_at(&v, 0) {
        Ok((c, p)) => {
            let rest = i.substring_char(p, i.unicode_len()).to_owned();
            proof {
                assert(rest@ =~= i@.skip(p as int));
            }
            Ok((rest, c))
        },
        Err(e) => Err(e.ctx("expr_tokens")),
    }
}

/// Parses one expression literal at the front of `i`: `${`, a non-empty
/// token run, `}`.
pub fn parse_expr_token_chunk(i: &str) -> (r: Result<(String, ExprTokenChunk), ParseError>)
    ensures
        r is Err ==> r->Err_0.context@.len() > 0 && r->Err_0.context@.last()@
            == "parse_expr_token_chunk"@,
        spec_parse_expr_token_chunk(i@, 0) matches Pr::Parsed(toks, e) ==> r is Ok && chunk_view(
            r->Ok_0.1,
        ) == toks && r->Ok_0.0@ == i@.skip(e),
        spec_parse_expr_token_chunk(i@, 0) is Soft ==> r is Err && !r->Err_0.committed,
        spec_parse_expr_token_chunk(i@, 0) is Hard ==> r is Err && r->Err_0.committed,
        spec_parse_expr_token_chunk(i@, 0) is Over ==> r is Err && r->Err_0.committed
            && r->Err_0.kind == crate::error::ErrorKind::Overflow,
{
    let v = chars_of(i);
    match expr_chunk_at(&v, 0) {
        Ok((c, p)) => {
            let rest = i.substring_char(p, i.unicode_len()).to_owned();
            proof {
                assert(rest@ =~= i@.skip(p as int));
            }
            Ok((rest, c))
        },
        Err(e) => Err(e.ctx("parse_expr_token_chunk")),
    }
}

} // verus!
