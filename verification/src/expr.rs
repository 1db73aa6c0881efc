use vstd::prelude::*;
use crate::ast::{chunk_view, tok_view, toks_view, ExprToken, ExprTokenChunk, TokV};
use crate::chars::{chars_of, legal_id_at, slice_chars, spec_legal_id, string_from_chars};
use crate::error::{ErrorKind, ParseError};
use crate::util::Iter;

verus! {

broadcast use vstd::std_specs::vec::group_vec_axioms, vstd::seq::group_seq_axioms, crate::chars::lemma_id_end_le;

// ---------------------------------------------------------------------------
// Identifiers
// ---------------------------------------------------------------------------

/// Parses one identifier at the front of `i`: a letter or underscore, then
/// letters, digits and underscores.
pub fn legal_id(i: &str) -> (r: Result<(String, String), ParseError>)
    ensures
        r is Err ==> r->Err_0.context@.len() > 0 && r->Err_0.context@.last()@
            == "legal_id"@,
        spec_legal_id(i@, 0) matches Some(e) ==> r is Ok && r->Ok_0.1@ == i@.subrange(0, e)
            && r->Ok_0.0@ == i@.skip(e),
        spec_legal_id(i@, 0) is None ==> r is Err && !r->Err_0.committed,
{
    let v = chars_of(i);
    match legal_id_at(&v, 0) {
        Some(e) => {
            let name_v = slice_chars(&v, 0, e);
            let rest = i.substring_char(e, i.unicode_len()).to_owned();
            proof {
                assert(rest@ =~= i@.skip(e as int));
            }
            Ok((rest, string_from_chars(&name_v)))
        },
        None => Err(ParseError::soft(0).ctx("legal_id")),
    }
}

// ---------------------------------------------------------------------------
// The expression tree
// ---------------------------------------------------------------------------

/// A parsed expression: a leaf token, or an operator applied to owned
/// children.
#[derive(Debug, PartialEq)]
pub enum ExprChunk {
    Primary(ExprToken),
    PrefixOp(ExprToken, Box<ExprChunk>),
    InfixOp(ExprToken, Box<ExprChunk>, Box<ExprChunk>),
    PostfixOp(ExprToken, Box<ExprChunk>),
}

pub enum EChunkV {
    Primary(TokV),
    PrefixOp(TokV, Box<EChunkV>),
    InfixOp(TokV, Box<EChunkV>, Box<EChunkV>),
    PostfixOp(TokV, Box<EChunkV>),
}

pub open spec fn echunk_view(c: ExprChunk) -> EChunkV
    decreases c,
{
    match c {
        ExprChunk::Primary(t) => EChunkV::Primary(tok_view(t)),
        ExprChunk::PrefixOp(t, rhs) => EChunkV::PrefixOp(tok_view(t), Box::new(echunk_view(*rhs))),
        ExprChunk::InfixOp(t, lhs, rhs) => EChunkV::InfixOp(
            tok_view(t),
            Box::new(echunk_view(*lhs)),
            Box::new(echunk_view(*rhs)),
        ),
        ExprChunk::PostfixOp(t, lhs) => EChunkV::PostfixOp(tok_view(t), Box::new(echunk_view(*lhs))),
    }
}

/// A tree's textual rendering: a leaf is its token, an operator node its
/// children and its operator in reading order, parenthesised.
pub open spec fn spec_render_echunk(c: EChunkV) -> Seq<char>
    decreases c,
{
    match c {
        EChunkV::Primary(t) => crate::render::spec_render_tok(t),
        EChunkV::PrefixOp(t, rhs) => seq!['('] + crate::render::spec_render_tok(t)
            + spec_render_echunk(*rhs) + seq![')'],
        EChunkV::InfixOp(t, lhs, rhs) => seq!['('] + spec_render_echunk(*lhs)
            + crate::render::spec_render_tok(t) + spec_render_echunk(*rhs) + seq![')'],
        EChunkV::PostfixOp(t, lhs) => seq!['('] + spec_render_echunk(*lhs)
            + crate::render::spec_render_tok(t) + seq![')'],
    }
}

impl ExprChunk {
    /// The tree's textual rendering.
    pub fn to_text(&self) -> (r: String)
        ensures
            r@ == spec_render_echunk(echunk_view(*self)),
        decreases *self,
    {
        match self {
            ExprChunk::Primary(t) => t.to_text(),
            ExprChunk::PrefixOp(t, rhs) => {
                let mut out = String::new();
                out.append("(");
                out.append(t.to_text().as_str());
                out.append(rhs.to_text().as_str());
                out.append(")");
                proof {
                    reveal_strlit("(");
                    reveal_strlit(")");
                    assert(out@ =~= spec_render_echunk(echunk_view(*self)));
                }
                out
            },
            ExprChunk::InfixOp(t, lhs, rhs) => {
                let mut out = String::new();
                out.append("(");
                out.append(lhs.to_text().as_str());
                out.append(t.to_text().as_str());
                out.append(rhs.to_text().as_str());
                out.append(")");
                proof {
                    reveal_strlit("(");
                    reveal_strlit(")");
                    assert(out@ =~= spec_render_echunk(echunk_view(*self)));
                }
                out
            },
            ExprChunk::PostfixOp(t, lhs) => {
                let mut out = String::new();
                out.append("(");
                out.append(lhs.to_text().as_str());
                out.append(t.to_text().as_str());
                out.append(")");
                proof {
                    reveal_strlit("(");
                    reveal_strlit(")");
                    assert(out@ =~= spec_render_echunk(echunk_view(*self)));
                }
                out
            },
        }
    }
}

// ---------------------------------------------------------------------------
// The precedence table
// ---------------------------------------------------------------------------

/// The binding strength of each token, one canonical value per token:
/// disjunction loosest, then conjunction, equality, comparison, additive,
/// multiplicative, prefix negation, and application tightest.  Tokens with
/// no operator role bind not at all.
pub open spec fn spec_precedence(t: TokV) -> int {
    match t {
        TokV::Or => 25,
        TokV::And => 30,
        TokV::Eq => 40,
        TokV::Ne => 40,
        TokV::Lt => 50,
        TokV::Gt => 50,
        TokV::Le => 50,
        TokV::Ge => 50,
        TokV::Plus => 60,
        TokV::Minus => 60,
        TokV::Mul => 70,
        TokV::Div => 70,
        TokV::Mod => 70,
        TokV::Not => 80,
        TokV::FnCall(_, _) => 90,
        TokV::Ref(_) => 90,
        TokV::Group(_) => 90,
        _ => 0,
    }
}

pub open spec fn is_primary_tok(t: TokV) -> bool {
    t is Val || t is FnCall || t is Ref || t is Group
}

pub open spec fn is_infix_tok(t: TokV) -> bool {
    t is Or || t is And || t is Eq || t is Ne || t is Lt || t is Gt || t is Le || t is Ge
        || t is Plus || t is Minus || t is Mul || t is Div || t is Mod
}

// ---------------------------------------------------------------------------
// Precedence climbing
// ---------------------------------------------------------------------------

/// What building a tree from the front of `toks` under the bound
/// `min_prec` yields: the tree and the unconsumed tail.  `None` is a
/// structural fault: an empty stream, a leading token that is neither a
/// primary nor a prefix operator, or a token in operator position with no
/// defined arm.
pub open spec fn spec_parse_expr(toks: Seq<TokV>, min_prec: int) -> Option<(EChunkV, Seq<TokV>)>
    decreases toks.len(), 0int,
{
    if toks.len() == 0 {
        Option::None
    } else {
        let t = toks[0];
        if is_primary_tok(t) {
            spec_climb(toks.skip(1), EChunkV::Primary(t), min_prec)
        } else if t is Not || t is Plus || t is Minus {
            match spec_parse_expr(toks.skip(1), spec_precedence(t)) {
                Option::Some((rhs, rem)) => if rem.len() < toks.len() {
                    spec_climb(rem, EChunkV::PrefixOp(t, Box::new(rhs)), min_prec)
                } else {
                    Option::None
                },
                Option::None => Option::None,
            }
        } else {
            Option::None
        }
    }
}

/// The climbing loop: while the next token binds tighter than the bound,
/// consume it and extend the tree to its left.
pub open spec fn spec_climb(toks: Seq<TokV>, lhs: EChunkV, min_prec: int) -> Option<
    (EChunkV, Seq<TokV>),
>
    decreases toks.len(), 1int,
{
    if toks.len() == 0 {
        Option::Some((lhs, toks))
    } else {
        let t = toks[0];
        if spec_precedence(t) <= min_prec {
            Option::Some((lhs, toks))
        } else if is_infix_tok(t) {
            match spec_parse_expr(toks.skip(1), spec_precedence(t)) {
                Option::Some((rhs, rem)) => if rem.len() < toks.len() {
                    spec_climb(rem, EChunkV::InfixOp(t, Box::new(lhs), Box::new(rhs)), min_prec)
                } else {
                    Option::None
                },
                Option::None => Option::None,
            }
        } else if is_primary_tok(t) {
            spec_climb(toks.skip(1), EChunkV::PostfixOp(t, Box::new(lhs)), min_prec)
        } else {
            Option::None
        }
    }
}

fn precedence_exec(t: &ExprToken) -> (r: u8)
    ensures
        r == spec_precedence(tok_view(*t)),
{
    match t {
        ExprToken::Or => 25,
        ExprToken::And => 30,
        ExprToken::Eq => 40,
        ExprToken::Ne => 40,
        ExprToken::Lt => 50,
        ExprToken::Gt => 50,
        ExprToken::Le => 50,
        ExprToken::Ge => 50,
        ExprToken::Plus => 60,
        ExprToken::Minus => 60,
        ExprToken::Mul => 70,
        ExprToken::Div => 70,
        ExprToken::Mod => 70,
        ExprToken::Not => 80,
        ExprToken::FnCall(_, _) => 90,
        ExprToken::Ref(_) => 90,
        ExprToken::Group(_) => 90,
        _ => 0,
    }
}

/// The recursive engine, consuming tokens from the front of the vector.
fn parse_r(toks: &mut Vec<ExprToken>, min_prec: u8) -> (r: Result<ExprChunk, ParseError>)
    ensures
        spec_parse_expr(toks_view(old(toks)@), min_prec as int) matches Option::Some((c, rem))
            ==> r is Ok && echunk_view(r->Ok_0) == c && toks_view(final(toks)@) == rem,
        spec_parse_expr(toks_view(old(toks)@), min_prec as int) is None ==> r is Err
            && r->Err_0.committed && r->Err_0.kind == ErrorKind::Expr,
        r is Ok ==> final(toks)@.len() < old(toks)@.len(),
        final(toks)@.len() <= old(toks)@.len(),
    decreases old(toks)@.len(), 0int,
{
    if toks.len() == 0 {
        Err(ParseError::expr(0))
    } else {
        let ghost toks0 = toks_view(toks@);
        let t = toks.remove(0);
        proof {
            assert(toks_view(toks@) =~= toks0.skip(1));
        }
        let is_prim = matches!(
            &t,
            ExprToken::Val(_) | ExprToken::FnCall(_, _) | ExprToken::Ref(_) | ExprToken::Group(_)
        );
        if is_prim {
            climb_r(toks, ExprChunk::Primary(t), min_prec)
        } else {
            let is_prefix = matches!(&t, ExprToken::Not | ExprToken::Plus | ExprToken::Minus);
            if is_prefix {
                let p = precedence_exec(&t);
                match parse_r(toks, p) {
                    Ok(rhs) => climb_r(toks, ExprChunk::PrefixOp(t, Box::new(rhs)), min_prec),
                    Err(e) => Err(e),
                }
            } else {
                Err(ParseError::expr(0))
            }
        }
    }
}

fn climb_r(toks: &mut Vec<ExprToken>, lhs: ExprChunk, min_prec: u8) -> (r: Result<
    ExprChunk,
    ParseError,
>)
    ensures
        spec_climb(toks_view(old(toks)@), echunk_view(lhs), min_prec as int) matches Option::Some(
            (c, rem),
        ) ==> r is Ok && echunk_view(r->Ok_0) == c && toks_view(final(toks)@) == rem,
        spec_climb(toks_view(old(toks)@), echunk_view(lhs), min_prec as int) is None ==> r is Err
            && r->Err_0.committed && r->Err_0.kind == ErrorKind::Expr,
        final(toks)@.len() <= old(toks)@.len(),
    decreases old(toks)@.len(), 1int,
{
    if toks.len() == 0 {
        Ok(lhs)
    } else {
        let p = precedence_exec(&toks[0]);
        if p <= min_prec {
            Ok(lhs)
        } else {
            let ghost toks0 = toks_view(toks@);
            let t = toks.remove(0);
            proof {
                assert(toks_view(toks@) =~= toks0.skip(1));
            }
            let is_inf = matches!(
                &t,
                ExprToken::Or | ExprToken::And | ExprToken::Eq | ExprToken::Ne | ExprToken::Lt
                    | ExprToken::Gt | ExprToken::Le | ExprToken::Ge | ExprToken::Plus
                    | ExprToken::Minus | ExprToken::Mul | ExprToken::Div | ExprToken::Mod
            );
            if is_inf {
                match parse_r(toks, p) {
                    Ok(rhs) => climb_r(
                        toks,
                        ExprChunk::InfixOp(t, Box::new(lhs), Box::new(rhs)),
                        min_prec,
                    ),
                    Err(e) => Err(e),
                }
            } else {
                let is_prim = matches!(
                    &t,
                    ExprToken::Val(_) | ExprToken::FnCall(_, _) | ExprToken::Ref(_)
                        | ExprToken::Group(_)
                );
                if is_prim {
                    climb_r(toks, ExprChunk::PostfixOp(t, Box::new(lhs)), min_prec)
                } else {
                    Err(ParseError::expr(0))
                }
            }
        }
    }
}

// ---------------------------------------------------------------------------
// The parser
// ---------------------------------------------------------------------------

/// The expression-tree builder over a token run.  Tokens are consumed from
/// the front as the tree grows.
pub struct Parser(pub Iter<ExprToken>);

impl Parser {
    /// Tokens are always consumed from the front: the cursor stays put.
    pub open spec fn wf(&self) -> bool {
        self.0.cursor == 0
    }

    /// The tokens not yet consumed.
    pub open spec fn remaining(&self) -> Seq<TokV> {
        toks_view(self.0.inner@)
    }

    pub fn new(tokens: Vec<ExprToken>) -> (r: Parser)
        ensures
            r.wf(),
            r.remaining() == toks_view(tokens@),
    {
        Parser(Iter::new(tokens))
    }

    /// The binding strength the climb compares against.
    pub fn precedence(token: &ExprToken) -> (r: u8)
        ensures
            r == spec_precedence(tok_view(*token)),
    {
        precedence_exec(token)
    }

    /// Builds the tree for the tokens ahead, consuming them, under the
    /// given lower bound on binding strength.  A malformed stream is a
    /// structural-fault error, never a panic.
    pub fn parse(&mut self, prec: u8) -> (r: Result<ExprChunk, ParseError>)
        requires
            old(self).wf(),
        ensures
            final(self).wf(),
            spec_parse_expr(old(self).remaining(), prec as int) matches Option::Some((c, rem))
                ==> r is Ok && echunk_view(r->Ok_0) == c && final(self).remaining() == rem,
            spec_parse_expr(old(self).remaining(), prec as int) is None ==> r is Err
                && r->Err_0.committed && r->Err_0.kind == ErrorKind::Expr,
    {
        parse_r(&mut self.0.inner, prec)
    }

    /// Whether every token has been consumed.
    pub fn is_done(&self) -> (r: bool)
        ensures
            r == (self.remaining().len() == 0),
    {
        self.0.inner.len() == 0
    }
}

/// The precedence law: between primaries, multiplication binds tighter
/// than addition, so `a + b * c` comes out right-nested, whatever the
/// operands are.
#[verifier::rlimit(100)]
#[verifier::spinoff_prover]
pub proof fn lemma_mul_binds_tighter(a: TokV, b: TokV, c: TokV)
    requires
        is_primary_tok(a),
        is_primary_tok(b),
        is_primary_tok(c),
    ensures
        spec_parse_expr(seq![a, TokV::Plus, b, TokV::Mul, c], 0) matches Option::Some((t, rem))
            && rem.len() == 0 && t == EChunkV::InfixOp(
            TokV::Plus,
            Box::new(EChunkV::Primary(a)),
            Box::new(
                EChunkV::InfixOp(
                    TokV::Mul,
                    Box::new(EChunkV::Primary(b)),
                    Box::new(EChunkV::Primary(c)),
                ),
            ),
        ),
{
    let toks = seq![a, TokV::Plus, b, TokV::Mul, c];
    reveal_with_fuel(spec_parse_expr, 5);
    reveal_with_fuel(spec_climb, 8);
    assert(toks.skip(1) =~= seq![TokV::Plus, b, TokV::Mul, c]);
    assert(toks.skip(1).skip(1) =~= seq![b, TokV::Mul, c]);
    assert(seq![b, TokV::Mul, c].skip(1) =~= seq![TokV::Mul, c]);
    assert(seq![TokV::Mul, c].skip(1) =~= seq![c]);
    assert(seq![c].skip(1) =~= Seq::<TokV>::empty());
    let inner = spec_climb(seq![c].skip(1), EChunkV::Primary(c), 70);
    assert(inner == Option::Some((EChunkV::Primary(c), Seq::<TokV>::empty())));
    assert(spec_parse_expr(seq![c], 70) == Option::Some(
        (EChunkV::Primary(c), Seq::<TokV>::empty()),
    ));
    let mulled = EChunkV::InfixOp(
        TokV::Mul,
        Box::new(EChunkV::Primary(b)),
        Box::new(EChunkV::Primary(c)),
    );
    assert(spec_climb(seq![TokV::Mul, c], EChunkV::Primary(b), 60) == Option::Some(
        (mulled, Seq::<TokV>::empty()),
    ));
    assert(spec_parse_expr(seq![b, TokV::Mul, c], 60) == Option::Some(
        (mulled, Seq::<TokV>::empty()),
    ));
    let summed = EChunkV::InfixOp(TokV::Plus, Box::new(EChunkV::Primary(a)), Box::new(mulled));
    assert(spec_climb(seq![TokV::Plus, b, TokV::Mul, c], EChunkV::Primary(a), 0) == Option::Some(
        (summed, Seq::<TokV>::empty()),
    ));
    assert(spec_parse_expr(toks, 0) == Option::Some((summed, Seq::<TokV>::empty())));
}

/// Builds the expression tree of a whole token chunk.  The climb starts
/// unbounded; tokens left over when it stops are a structural fault,
/// reported rather than silently dropped.
pub fn parse_expr(chunk: ExprTokenChunk) -> (r: Result<ExprChunk, ParseError>)
    ensures
        r is Err ==> r->Err_0.context@.len() > 0 && r->Err_0.context@.last()@
            == "parse_expr"@,
        spec_parse_expr(chunk_view(chunk), 0) matches Option::Some((c, rem)) ==> if rem.len()
            == 0 {
            r is Ok && echunk_view(r->Ok_0) == c
        } else {
            r is Err && r->Err_0.committed && r->Err_0.kind == ErrorKind::Expr
        },
        spec_parse_expr(chunk_view(chunk), 0) is None ==> r is Err && r->Err_0.committed
            && r->Err_0.kind == ErrorKind::Expr,
{
    let mut parser = Parser::new(chunk.into());
    let res = parser.parse(0);
    match res {
        Ok(c) => {
            if parser.is_done() {
                Ok(c)
            } else {
                Err(ParseError::expr(0).ctx("parse_expr"))
            }
        },
        Err(e) => Err(e.ctx("parse_expr")),
    }
}

} // verus!
