use vstd::prelude::*;
use crate::ast::{
    ann_view, anns_view, chunk_view, chunks_view, entries_view, key_view, lentries_view, lit_view,
    lits_view, pronoun_view, refidx_view, refidxs_view, seg_view, segs_view, tok_view, toks_view,
    AnnV, Annotation, EsonLiteralSegment, EsonSegment, ExprToken, ExprTokenChunk, FloatLit, FloatV,
    Key, KeyV, LitV, RefIndex, RefIndexV, RefPronoun, RefPronounV, SegV, TokV,
};
use crate::chars::{chars_of, string_from_chars};

verus! {

broadcast use vstd::std_specs::vec::group_vec_axioms, vstd::seq::group_seq_axioms, vstd::utf8::char_u32_cast;

// ---------------------------------------------------------------------------
// Decimal rendering of integers
// ---------------------------------------------------------------------------

pub open spec fn digit_char(d: int) -> char {
    ((48 + d) as u32) as char
}

/// The decimal digits of a non-negative number, most significant first.
pub open spec fn spec_dec_nat(n: int) -> Seq<char>
    decreases n,
{
    if n < 10 {
        seq![digit_char(if n >= 0 { n } else { 0 })]
    } else {
        spec_dec_nat(n / 10).push(digit_char(n % 10))
    }
}

/// The decimal rendering of a signed number: a minus sign, then digits.
pub open spec fn spec_dec_int(i: int) -> Seq<char> {
    if i >= 0 {
        spec_dec_nat(i)
    } else {
        seq!['-'] + spec_dec_nat(-i)
    }
}

fn digit_char_exec(d: u64) -> (c: char)
    requires
        d <= 9,
    ensures
        c == digit_char(d as int),
{
    let u: u32 = 48 + (d as u32);
    crate::chars::char_from_u32(u)
}

fn dec_nat_exec(n: u64) -> (v: Vec<char>)
    ensures
        v@ == spec_dec_nat(n as int),
    decreases n,
{
    if n < 10 {
        let mut v: Vec<char> = Vec::new();
        v.push(digit_char_exec(n));
        proof {
            assert(v@ =~= spec_dec_nat(n as int));
        }
        v
    } else {
        let mut v = dec_nat_exec(n / 10);
        v.push(digit_char_exec(n % 10));
        v
    }
}

fn dec_i64_exec(i: i64) -> (v: Vec<char>)
    ensures
        v@ == spec_dec_int(i as int),
{
    if i >= 0 {
        dec_nat_exec(i as u64)
    } else {
        let mag: u64 = if i == i64::MIN {
            9223372036854775808u64
        } else {
            (-i) as u64
        };
        let mut v: Vec<char> = Vec::new();
        v.push('-');
        let mut digits = dec_nat_exec(mag);
        v.append(&mut digits);
        proof {
            assert(v@ =~= spec_dec_int(i as int));
        }
        v
    }
}

// ---------------------------------------------------------------------------
// Structure-style rendering, piece by piece
//
// Payloads render in the shape Rust's derived formatting gives the tree:
// string contents quoted, every constructor named, lists in brackets,
// dictionaries as brace-wrapped `key: value` maps, argument chunks under
// their own constructor.  Two deliberate residues: inside quotes only the
// quote, the backslash, and the newline, carriage-return and tab escapes
// are applied, rarer control characters staying verbatim; and a finite
// float prints the exact literal it was written as, not the shortest
// decimal of the value it parses to.  Dictionary entries print in
// insertion order.
// ---------------------------------------------------------------------------

/// One character of a quoted string body.
pub open spec fn dbg_char(c: char) -> Seq<char> {
    if c == '"' {
        seq!['\\', '"']
    } else if c == '\\' {
        seq!['\\', '\\']
    } else if c == '\n' {
        seq!['\\', 'n']
    } else if c == '\r' {
        seq!['\\', 'r']
    } else if c == '\t' {
        seq!['\\', 't']
    } else {
        seq![c]
    }
}

pub open spec fn dbg_str_body(s: Seq<char>, i: int) -> Seq<char>
    decreases s.len() - i,
{
    if i < 0 || i >= s.len() {
        Seq::empty()
    } else {
        dbg_char(s[i]) + dbg_str_body(s, i + 1)
    }
}

/// A quoted string.
pub open spec fn dbg_str(s: Seq<char>) -> Seq<char> {
    seq!['"'] + dbg_str_body(s, 0) + seq!['"']
}

/// A float: the kept literal text, or the named non-finite values.
pub open spec fn dbg_float(f: FloatV) -> Seq<char> {
    match f {
        FloatV::Dec(t) => t,
        FloatV::Infinity => "inf"@,
        FloatV::NegInfinity => "-inf"@,
        FloatV::NaN => "NaN"@,
    }
}

pub open spec fn dbg_idx(x: RefIndexV) -> Seq<char> {
    match x {
        RefIndexV::Int(n) => "Int("@ + spec_dec_int(n as int) + ")"@,
        RefIndexV::Str(s) => "Str("@ + dbg_str(s) + ")"@,
    }
}

pub open spec fn dbg_idxs(s: Seq<RefIndexV>, i: int) -> Seq<char>
    decreases s.len() - i,
{
    if i < 0 || i >= s.len() {
        Seq::empty()
    } else if i + 1 == s.len() {
        dbg_idx(s[i])
    } else {
        dbg_idx(s[i]) + ", "@ + dbg_idxs(s, i + 1)
    }
}

pub open spec fn dbg_pronoun(p: RefPronounV) -> Seq<char> {
    match p {
        RefPronounV::Curr(el) => "Curr(["@ + dbg_idxs(el, 0) + "])"@,
        RefPronounV::Super(el) => "Super(["@ + dbg_idxs(el, 0) + "])"@,
        RefPronounV::Root(el) => "Root(["@ + dbg_idxs(el, 0) + "])"@,
    }
}

pub open spec fn dbg_lit(v: LitV) -> Seq<char>
    decreases v, 0int, 0int,
{
    match v {
        LitV::Null => "Null"@,
        LitV::Str(s) => "Str("@ + dbg_str(s) + ")"@,
        LitV::Boolean(b) => if b {
            "Boolean(true)"@
        } else {
            "Boolean(false)"@
        },
        LitV::Int(i) => "Int("@ + spec_dec_int(i as int) + ")"@,
        LitV::Float(f) => "Float("@ + dbg_float(f) + ")"@,
        LitV::List(elems) => "List(["@ + dbg_lits(elems, 0) + "])"@,
        LitV::Dict(entries) => "Dict({"@ + dbg_lentries(entries, 0) + "})"@,
    }
}

pub open spec fn dbg_lits(s: Seq<LitV>, i: int) -> Seq<char>
    decreases s, s.len() - i, 0int,
{
    if i < 0 || i >= s.len() {
        Seq::empty()
    } else if i + 1 == s.len() {
        dbg_lit(s[i])
    } else {
        dbg_lit(s[i]) + ", "@ + dbg_lits(s, i + 1)
    }
}

pub open spec fn dbg_lentries(s: Seq<(KeyV, LitV)>, i: int) -> Seq<char>
    decreases s, s.len() - i, 0int,
{
    if i < 0 || i >= s.len() {
        Seq::empty()
    } else if i + 1 == s.len() {
        dbg_key(s[i].0) + ": "@ + dbg_lit(s[i].1)
    } else {
        dbg_key(s[i].0) + ": "@ + dbg_lit(s[i].1) + ", "@ + dbg_lentries(s, i + 1)
    }
}

pub open spec fn dbg_ann(a: AnnV) -> Seq<char>
    decreases a, 0int, 0int,
{
    "Annotation { name: "@ + dbg_str(a.name) + ", value: "@ + (match a.value {
        Option::Some(args) => "Some(["@ + dbg_lits(args, 0) + "])"@,
        Option::None => "None"@,
    }) + " }"@
}

pub open spec fn dbg_anns(s: Seq<AnnV>, i: int) -> Seq<char>
    decreases s, s.len() - i, 0int,
{
    if i < 0 || i >= s.len() {
        Seq::empty()
    } else if i + 1 == s.len() {
        dbg_ann(s[i])
    } else {
        dbg_ann(s[i]) + ", "@ + dbg_anns(s, i + 1)
    }
}

pub open spec fn dbg_key(k: KeyV) -> Seq<char>
    decreases k, 0int, 0int,
{
    "Key { name: "@ + dbg_str(k.name) + ", annotation: "@ + (match k.annotation {
        Option::Some(anns) => "Some(["@ + dbg_anns(anns, 0) + "])"@,
        Option::None => "None"@,
    }) + " }"@
}

pub open spec fn dbg_seg(v: SegV) -> Seq<char>
    decreases v, 0int, 0int,
{
    match v {
        SegV::Null => "Null"@,
        SegV::Str(s) => "Str("@ + dbg_str(s) + ")"@,
        SegV::Boolean(b) => if b {
            "Boolean(true)"@
        } else {
            "Boolean(false)"@
        },
        SegV::Int(i) => "Int("@ + spec_dec_int(i as int) + ")"@,
        SegV::Float(f) => "Float("@ + dbg_float(f) + ")"@,
        SegV::List(elems) => "List(["@ + dbg_segs(elems, 0) + "])"@,
        SegV::Dict(entries) => "Dict({"@ + dbg_entries(entries, 0) + "})"@,
        SegV::Expr(toks) => "Expr("@ + dbg_chunk(toks) + ")"@,
    }
}

pub open spec fn dbg_segs(s: Seq<SegV>, i: int) -> Seq<char>
    decreases s, s.len() - i, 0int,
{
    if i < 0 || i >= s.len() {
        Seq::empty()
    } else if i + 1 == s.len() {
        dbg_seg(s[i])
    } else {
        dbg_seg(s[i]) + ", "@ + dbg_segs(s, i + 1)
    }
}

pub open spec fn dbg_entries(s: Seq<(KeyV, SegV)>, i: int) -> Seq<char>
    decreases s, s.len() - i, 0int,
{
    if i < 0 || i >= s.len() {
        Seq::empty()
    } else if i + 1 == s.len() {
        dbg_key(s[i].0) + ": "@ + dbg_seg(s[i].1)
    } else {
        dbg_key(s[i].0) + ": "@ + dbg_seg(s[i].1) + ", "@ + dbg_entries(s, i + 1)
    }
}

/// A token in structure shape: every payload spelled out, names quoted.
pub open spec fn dbg_tok(t: TokV) -> Seq<char>
    decreases t, 0int, 0int,
{
    match t {
        TokV::Nil => "None"@,
        TokV::Group(toks) => "Group("@ + dbg_chunk(toks) + ")"@,
        TokV::Val(v) => "Val("@ + dbg_seg(v) + ")"@,
        TokV::FnCall(id, args) => "FnCall("@ + dbg_str(id) + ", ["@ + dbg_chunks(args, 0) + "])"@,
        TokV::Var(id) => "Var("@ + dbg_str(id) + ")"@,
        TokV::Ref(p) => "Ref("@ + dbg_pronoun(p) + ")"@,
        TokV::Pipe => "Pipe"@,
        TokV::Q => "Q"@,
        TokV::COLON => "COLON"@,
        TokV::Eq => "Eq"@,
        TokV::Ne => "Ne"@,
        TokV::Le => "Le"@,
        TokV::Ge => "Ge"@,
        TokV::And => "And"@,
        TokV::Or => "Or"@,
        TokV::Not => "Not"@,
        TokV::Gt => "Gt"@,
        TokV::Lt => "Lt"@,
        TokV::Plus => "Plus"@,
        TokV::Minus => "Minus"@,
        TokV::Mul => "Mul"@,
        TokV::Div => "Div"@,
        TokV::Mod => "Mod"@,
        TokV::Eoi => "Eoi"@,
    }
}

pub open spec fn dbg_toks(s: Seq<TokV>, i: int) -> Seq<char>
    decreases s, s.len() - i, 0int,
{
    if i < 0 || i >= s.len() {
        Seq::empty()
    } else if i + 1 == s.len() {
        dbg_tok(s[i])
    } else {
        dbg_tok(s[i]) + ", "@ + dbg_toks(s, i + 1)
    }
}

/// A token chunk in structure shape, under its own constructor.
pub open spec fn dbg_chunk(toks: Seq<TokV>) -> Seq<char>
    decreases toks, toks.len() + 1, 0int,
{
    "ExprTokenChunk(["@ + dbg_toks(toks, 0) + "])"@
}

pub open spec fn dbg_chunks(s: Seq<Seq<TokV>>, i: int) -> Seq<char>
    decreases s, s.len() - i, 0int,
{
    if i < 0 || i >= s.len() {
        Seq::empty()
    } else if i + 1 == s.len() {
        dbg_chunk(s[i])
    } else {
        dbg_chunk(s[i]) + ", "@ + dbg_chunks(s, i + 1)
    }
}

// ---------------------------------------------------------------------------
// The reading-form rendering of one token
// ---------------------------------------------------------------------------

/// One token's rendering as the splice placeholder shows it: a value, a
/// call or a reference carries its payload in structure shape, but the
/// token's own head stays bare — `Var(name)` and `FnCall(name, [...])`
/// print their identifier unquoted, and a group collapses to its name.
pub open spec fn spec_render_tok(t: TokV) -> Seq<char> {
    match t {
        TokV::Nil => "None"@,
        TokV::Group(_) => "Group"@,
        TokV::Val(v) => "Val("@ + dbg_seg(v) + ")"@,
        TokV::FnCall(id, args) => "FnCall("@ + id + ", ["@ + dbg_chunks(args, 0) + "])"@,
        TokV::Var(id) => "Var("@ + id + ")"@,
        TokV::Ref(p) => "Ref("@ + dbg_pronoun(p) + ")"@,
        TokV::Pipe => "Pipe"@,
        TokV::Q => "Q"@,
        TokV::COLON => "COLON"@,
        TokV::Eq => "Eq"@,
        TokV::Ne => "Ne"@,
        TokV::Le => "Le"@,
        TokV::Ge => "Ge"@,
        TokV::And => "And"@,
        TokV::Or => "Or"@,
        TokV::Not => "Not"@,
        TokV::Gt => "Gt"@,
        TokV::Lt => "Lt"@,
        TokV::Plus => "Plus"@,
        TokV::Minus => "Minus"@,
        TokV::Mul => "Mul"@,
        TokV::Div => "Div"@,
        TokV::Mod => "Mod"@,
        TokV::Eoi => "Eoi"@,
    }
}

/// A chunk's rendering: its tokens' renderings, run together, as the
/// splice placeholder asks.
pub open spec fn spec_render_chunk(toks: Seq<TokV>, i: int) -> Seq<char>
    decreases toks.len() - i,
{
    if i < 0 || i >= toks.len() {
        Seq::empty()
    } else {
        spec_render_tok(toks[i]) + spec_render_chunk(toks, i + 1)
    }
}

// ---------------------------------------------------------------------------
// Executable rendering
// ---------------------------------------------------------------------------

fn push_label(out: &mut Vec<char>, label: &str)
    ensures
        final(out)@ == old(out)@ + label@,
{
    let n = label.unicode_len();
    let mut i: usize = 0;
    while i < n
        invariant
            i <= n,
            n == label@.len(),
            out@ == old(out)@ + label@.subrange(0, i as int),
        decreases n - i,
    {
        out.push(label.get_char(i));
        proof {
            assert(old(out)@ + label@.subrange(0, i as int + 1) =~= (old(out)@ + label@.subrange(
                0,
                i as int,
            )).push(label@[i as int]));
        }
        i = i + 1;
    }
    proof {
        assert(label@.subrange(0, n as int) =~= label@);
    }
}

fn dbg_body_chars(v: &Vec<char>, i: usize) -> (out: Vec<char>)
    requires
        i <= v.len(),
    ensures
        out@ == dbg_str_body(v@, i as int),
    decreases v@.len() - i,
{
    let mut out: Vec<char> = Vec::new();
    if i < v.len() {
        let c = v[i];
        if c == '"' {
            out.push('\\');
            out.push('"');
        } else if c == '\\' {
            out.push('\\');
            out.push('\\');
        } else if c == '\n' {
            out.push('\\');
            out.push('n');
        } else if c == '\r' {
            out.push('\\');
            out.push('r');
        } else if c == '\t' {
            out.push('\\');
            out.push('t');
        } else {
            out.push(c);
        }
        let mut rest = dbg_body_chars(v, i + 1);
        out.append(&mut rest);
    }
    proof {
        assert(out@ =~= dbg_str_body(v@, i as int));
    }
    out
}

fn push_dbg_str(out: &mut Vec<char>, s: &str)
    ensures
        final(out)@ == old(out)@ + dbg_str(s@),
{
    let v = chars_of(s);
    out.push('"');
    let mut body = dbg_body_chars(&v, 0);
    out.append(&mut body);
    out.push('"');
    proof {
        assert(out@ =~= old(out)@ + dbg_str(s@));
    }
}

fn dbg_float_chars(f: &FloatLit) -> (out: Vec<char>)
    ensures
        out@ == dbg_float(crate::ast::float_view(*f)),
{
    match f {
        FloatLit::Dec(t) => chars_of(t.as_str()),
        FloatLit::Infinity => {
            let mut out: Vec<char> = Vec::new();
            push_label(&mut out, "inf");
            out
        },
        FloatLit::NegInfinity => {
            let mut out: Vec<char> = Vec::new();
            push_label(&mut out, "-inf");
            out
        },
        FloatLit::NaN => {
            let mut out: Vec<char> = Vec::new();
            push_label(&mut out, "NaN");
            out
        },
    }
}

fn dbg_idx_chars(x: &RefIndex) -> (out: Vec<char>)
    ensures
        out@ == dbg_idx(refidx_view(*x)),
{
    let mut out: Vec<char> = Vec::new();
    match x {
        RefIndex::Int(n) => {
            push_label(&mut out, "Int(");
            let mut d = dec_i64_exec(*n as i64);
            out.append(&mut d);
            push_label(&mut out, ")");
        },
        RefIndex::Str(s) => {
            push_label(&mut out, "Str(");
            push_dbg_str(&mut out, s.as_str());
            push_label(&mut out, ")");
        },
    }
    proof {
        assert(out@ =~= dbg_idx(refidx_view(*x)));
    }
    out
}

fn dbg_idxs_chars(el: &Vec<RefIndex>, i: usize) -> (out: Vec<char>)
    requires
        i <= el.len(),
    ensures
        out@ == dbg_idxs(refidxs_view(el@), i as int),
    decreases el@.len() - i,
{
    let mut out: Vec<char> = Vec::new();
    if i < el.len() {
        let mut head = dbg_idx_chars(&el[i]);
        out.append(&mut head);
        if i + 1 < el.len() {
            push_label(&mut out, ", ");
            let mut rest = dbg_idxs_chars(el, i + 1);
            out.append(&mut rest);
        }
    }
    proof {
        assert(out@ =~= dbg_idxs(refidxs_view(el@), i as int));
    }
    out
}

fn dbg_pronoun_chars(p: &RefPronoun) -> (out: Vec<char>)
    ensures
        out@ == dbg_pronoun(pronoun_view(*p)),
{
    let mut out: Vec<char> = Vec::new();
    match p {
        RefPronoun::Curr(el) => {
            push_label(&mut out, "Curr([");
            let mut e = dbg_idxs_chars(el, 0);
            out.append(&mut e);
            push_label(&mut out, "])");
        },
        RefPronoun::Super(el) => {
            push_label(&mut out, "Super([");
            let mut e = dbg_idxs_chars(el, 0);
            out.append(&mut e);
            push_label(&mut out, "])");
        },
        RefPronoun::Root(el) => {
            push_label(&mut out, "Root([");
            let mut e = dbg_idxs_chars(el, 0);
            out.append(&mut e);
            push_label(&mut out, "])");
        },
    }
    proof {
        assert(out@ =~= dbg_pronoun(pronoun_view(*p)));
    }
    out
}

fn dbg_lit_chars(v: &EsonLiteralSegment) -> (out: Vec<char>)
    ensures
        out@ == dbg_lit(lit_view(*v)),
    decreases *v, 0int, 0int,
{
    let mut out: Vec<char> = Vec::new();
    match v {
        EsonLiteralSegment::Null => push_label(&mut out, "Null"),
        EsonLiteralSegment::Str(s) => {
            push_label(&mut out, "Str(");
            push_dbg_str(&mut out, s.as_str());
            push_label(&mut out, ")");
        },
        EsonLiteralSegment::Boolean(b) => {
            if *b {
                push_label(&mut out, "Boolean(true)");
            } else {
                push_label(&mut out, "Boolean(false)");
            }
        },
        EsonLiteralSegment::Int(i) => {
            push_label(&mut out, "Int(");
            let mut d = dec_i64_exec(*i);
            out.append(&mut d);
            push_label(&mut out, ")");
        },
        EsonLiteralSegment::Float(f) => {
            push_label(&mut out, "Float(");
            let mut t = dbg_float_chars(f);
            out.append(&mut t);
            push_label(&mut out, ")");
        },
        EsonLiteralSegment::List(elems) => {
            push_label(&mut out, "List([");
            let mut e = dbg_lits_chars(elems, 0);
            out.append(&mut e);
            push_label(&mut out, "])");
        },
        EsonLiteralSegment::Dict(d) => {
            push_label(&mut out, "Dict({");
            let mut e = dbg_lentries_chars(&d.entries, 0);
            out.append(&mut e);
            push_label(&mut out, "})");
        },
    }
    proof {
        assert(out@ =~= dbg_lit(lit_view(*v)));
    }
    out
}

fn dbg_lits_chars(s: &Vec<EsonLiteralSegment>, i: usize) -> (out: Vec<char>)
    requires
        i <= s.len(),
    ensures
        out@ == dbg_lits(lits_view(s@), i as int),
    decreases s, s@.len() - i, 1int,
{
    let mut out: Vec<char> = Vec::new();
    if i < s.len() {
        let mut head = dbg_lit_chars(&s[i]);
        out.append(&mut head);
        if i + 1 < s.len() {
            push_label(&mut out, ", ");
            let mut rest = dbg_lits_chars(s, i + 1);
            out.append(&mut rest);
        }
    }
    proof {
        assert(out@ =~= dbg_lits(lits_view(s@), i as int));
    }
    out
}

fn dbg_lentries_chars(s: &Vec<(Key, EsonLiteralSegment)>, i: usize) -> (out: Vec<char>)
    requires
        i <= s.len(),
    ensures
        out@ == dbg_lentries(lentries_view(s@), i as int),
    decreases s, s@.len() - i, 1int,
{
    let mut out: Vec<char> = Vec::new();
    if i < s.len() {
        let mut k = dbg_key_chars(&s[i].0);
        out.append(&mut k);
        push_label(&mut out, ": ");
        let mut v = dbg_lit_chars(&s[i].1);
        out.append(&mut v);
        if i + 1 < s.len() {
            push_label(&mut out, ", ");
            let mut rest = dbg_lentries_chars(s, i + 1);
            out.append(&mut rest);
        }
    }
    proof {
        assert(out@ =~= dbg_lentries(lentries_view(s@), i as int));
    }
    out
}

fn dbg_ann_chars(a: &Annotation) -> (out: Vec<char>)
    ensures
        out@ == dbg_ann(ann_view(*a)),
    decreases *a, 0int, 0int,
{
    let mut out: Vec<char> = Vec::new();
    push_label(&mut out, "Annotation { name: ");
    push_dbg_str(&mut out, a.name.as_str());
    push_label(&mut out, ", value: ");
    match &a.value {
        Some(args) => {
            push_label(&mut out, "Some([");
            let mut e = dbg_lits_chars(args, 0);
            out.append(&mut e);
            push_label(&mut out, "])");
        },
        None => push_label(&mut out, "None"),
    }
    push_label(&mut out, " }");
    proof {
        assert(out@ =~= dbg_ann(ann_view(*a)));
    }
    out
}

fn dbg_anns_chars(s: &Vec<Annotation>, i: usize) -> (out: Vec<char>)
    requires
        i <= s.len(),
    ensures
        out@ == dbg_anns(anns_view(s@), i as int),
    decreases s, s@.len() - i, 1int,
{
    let mut out: Vec<char> = Vec::new();
    if i < s.len() {
        let mut head = dbg_ann_chars(&s[i]);
        out.append(&mut head);
        if i + 1 < s.len() {
            push_label(&mut out, ", ");
            let mut rest = dbg_anns_chars(s, i + 1);
            out.append(&mut rest);
        }
    }
    proof {
        assert(out@ =~= dbg_anns(anns_view(s@), i as int));
    }
    out
}

fn dbg_key_chars(k: &Key) -> (out: Vec<char>)
    ensures
        out@ == dbg_key(key_view(*k)),
    decreases *k, 0int, 0int,
{
    let mut out: Vec<char> = Vec::new();
    push_label(&mut out, "Key { name: ");
    push_dbg_str(&mut out, k.name.as_str());
    push_label(&mut out, ", annotation: ");
    match &k.annotation {
        Some(anns) => {
            push_label(&mut out, "Some([");
            let mut e = dbg_anns_chars(anns, 0);
            out.append(&mut e);
            push_label(&mut out, "])");
        },
        None => push_label(&mut out, "None"),
    }
    push_label(&mut out, " }");
    proof {
        assert(out@ =~= dbg_key(key_view(*k)));
    }
    out
}

fn dbg_seg_chars(v: &EsonSegment) -> (out: Vec<char>)
    ensures
        out@ == dbg_seg(seg_view(*v)),
    decreases *v, 0int, 0int,
{
    let mut out: Vec<char> = Vec::new();
    match v {
        EsonSegment::Null => push_label(&mut out, "Null"),
        EsonSegment::Str(s) => {
            push_label(&mut out, "Str(");
            push_dbg_str(&mut out, s.as_str());
            push_label(&mut out, ")");
        },
        EsonSegment::Boolean(b) => {
            if *b {
                push_label(&mut out, "Boolean(true)");
            } else {
                push_label(&mut out, "Boolean(false)");
            }
        },
        EsonSegment::Int(i) => {
            push_label(&mut out, "Int(");
            let mut d = dec_i64_exec(*i);
            out.append(&mut d);
            push_label(&mut out, ")");
        },
        EsonSegment::Float(f) => {
            push_label(&mut out, "Float(");
            let mut t = dbg_float_chars(f);
            out.append(&mut t);
            push_label(&mut out, ")");
        },
        EsonSegment::List(elems) => {
            push_label(&mut out, "List([");
            let mut e = dbg_segs_chars(elems, 0);
            out.append(&mut e);
            push_label(&mut out, "])");
        },
        EsonSegment::Dict(d) => {
            push_label(&mut out, "Dict({");
            let mut e = dbg_entries_chars(&d.entries, 0);
            out.append(&mut e);
            push_label(&mut out, "})");
        },
        EsonSegment::Expr(c) => {
            push_label(&mut out, "Expr(");
            let mut e = dbg_chunk_chars(c);
            out.append(&mut e);
            push_label(&mut out, ")");
        },
    }
    proof {
        assert(out@ =~= dbg_seg(seg_view(*v)));
    }
    out
}

fn dbg_segs_chars(s: &Vec<EsonSegment>, i: usize) -> (out: Vec<char>)
    requires
        i <= s.len(),
    ensures
        out@ == dbg_segs(segs_view(s@), i as int),
    decreases s, s@.len() - i, 1int,
{
    let mut out: Vec<char> = Vec::new();
    if i < s.len() {
        let mut head = dbg_seg_chars(&s[i]);
        out.append(&mut head);
        if i + 1 < s.len() {
            push_label(&mut out, ", ");
            let mut rest = dbg_segs_chars(s, i + 1);
            out.append(&mut rest);
        }
    }
    proof {
        assert(out@ =~= dbg_segs(segs_view(s@), i as int));
    }
    out
}

fn dbg_entries_chars(s: &Vec<(Key, EsonSegment)>, i: usize) -> (out: Vec<char>)
    requires
        i <= s.len(),
    ensures
        out@ == dbg_entries(entries_view(s@), i as int),
    decreases s, s@.len() - i, 1int,
{
    let mut out: Vec<char> = Vec::new();
    if i < s.len() {
        let mut k = dbg_key_chars(&s[i].0);
        out.append(&mut k);
        push_label(&mut out, ": ");
        let mut v = dbg_seg_chars(&s[i].1);
        out.append(&mut v);
        if i + 1 < s.len() {
            push_label(&mut out, ", ");
            let mut rest = dbg_entries_chars(s, i + 1);
            out.append(&mut rest);
        }
    }
    proof {
        assert(out@ =~= dbg_entries(entries_view(s@), i as int));
    }
    out
}

fn dbg_tok_chars(t: &ExprToken) -> (out: Vec<char>)
    ensures
        out@ == dbg_tok(tok_view(*t)),
    decreases *t, 0int, 0int,
{
    let mut out: Vec<char> = Vec::new();
    match t {
        ExprToken::Nil => push_label(&mut out, "None"),
        ExprToken::Group(c) => {
            push_label(&mut out, "Group(");
            let mut e = dbg_chunk_chars(c);
            out.append(&mut e);
            push_label(&mut out, ")");
        },
        ExprToken::Val(v) => {
            push_label(&mut out, "Val(");
            let mut s = dbg_seg_chars(v);
            out.append(&mut s);
            push_label(&mut out, ")");
        },
        ExprToken::FnCall(id, args) => {
            push_label(&mut out, "FnCall(");
            push_dbg_str(&mut out, id.as_str());
            push_label(&mut out, ", [");
            let mut a = dbg_chunks_chars(args, 0);
            out.append(&mut a);
            push_label(&mut out, "])");
        },
        ExprToken::Var(id) => {
            push_label(&mut out, "Var(");
            push_dbg_str(&mut out, id.as_str());
            push_label(&mut out, ")");
        },
        ExprToken::Ref(p) => {
            push_label(&mut out, "Ref(");
            let mut e = dbg_pronoun_chars(p);
            out.append(&mut e);
            push_label(&mut out, ")");
        },
        ExprToken::Pipe => push_label(&mut out, "Pipe"),
        ExprToken::Q => push_label(&mut out, "Q"),
        ExprToken::COLON => push_label(&mut out, "COLON"),
        ExprToken::Eq => push_label(&mut out, "Eq"),
        ExprToken::Ne => push_label(&mut out, "Ne"),
        ExprToken::Le => push_label(&mut out, "Le"),
        ExprToken::Ge => push_label(&mut out, "Ge"),
        ExprToken::And => push_label(&mut out, "And"),
        ExprToken::Or => push_label(&mut out, "Or"),
        ExprToken::Not => push_label(&mut out, "Not"),
        ExprToken::Gt => push_label(&mut out, "Gt"),
        ExprToken::Lt => push_label(&mut out, "Lt"),
        ExprToken::Plus => push_label(&mut out, "Plus"),
        ExprToken::Minus => push_label(&mut out, "Minus"),
        ExprToken::Mul => push_label(&mut out, "Mul"),
        ExprToken::Div => push_label(&mut out, "Div"),
        ExprToken::Mod => push_label(&mut out, "Mod"),
        ExprToken::Eoi => push_label(&mut out, "Eoi"),
    }
    proof {
        assert(out@ =~= dbg_tok(tok_view(*t)));
    }
    out
}

fn dbg_toks_chars(s: &Vec<ExprToken>, i: usize) -> (out: Vec<char>)
    requires
        i <= s.len(),
    ensures
        out@ == dbg_toks(toks_view(s@), i as int),
    decreases s, s@.len() - i, 1int,
{
    let mut out: Vec<char> = Vec::new();
    if i < s.len() {
        let mut head = dbg_tok_chars(&s[i]);
        out.append(&mut head);
        if i + 1 < s.len() {
            push_label(&mut out, ", ");
            let mut rest = dbg_toks_chars(s, i + 1);
            out.append(&mut rest);
        }
    }
    proof {
        assert(out@ =~= dbg_toks(toks_view(s@), i as int));
    }
    out
}

fn dbg_chunk_chars(c: &ExprTokenChunk) -> (out: Vec<char>)
    ensures
        out@ == dbg_chunk(chunk_view(*c)),
    decreases *c, 0int, 0int,
{
    let mut out: Vec<char> = Vec::new();
    push_label(&mut out, "ExprTokenChunk([");
    let mut e = dbg_toks_chars(&c.0, 0);
    out.append(&mut e);
    push_label(&mut out, "])");
    proof {
        assert(out@ =~= dbg_chunk(chunk_view(*c)));
    }
    out
}

fn dbg_chunks_chars(s: &Vec<ExprTokenChunk>, i: usize) -> (out: Vec<char>)
    requires
        i <= s.len(),
    ensures
        out@ == dbg_chunks(chunks_view(s@), i as int),
    decreases s, s@.len() - i, 1int,
{
    let mut out: Vec<char> = Vec::new();
    if i < s.len() {
        let mut head = dbg_chunk_chars(&s[i]);
        out.append(&mut head);
        if i + 1 < s.len() {
            push_label(&mut out, ", ");
            let mut rest = dbg_chunks_chars(s, i + 1);
            out.append(&mut rest);
        }
    }
    proof {
        assert(out@ =~= dbg_chunks(chunks_view(s@), i as int));
    }
    out
}

fn render_tok_chars(t: &ExprToken) -> (out: Vec<char>)
    ensures
        out@ == spec_render_tok(tok_view(*t)),
{
    match t {
        ExprToken::Group(_) => {
            let mut out: Vec<char> = Vec::new();
            push_label(&mut out, "Group");
            proof {
                assert(out@ =~= spec_render_tok(tok_view(*t)));
            }
            out
        },
        ExprToken::FnCall(id, args) => {
            let mut out: Vec<char> = Vec::new();
            push_label(&mut out, "FnCall(");
            let mut cs = chars_of(id.as_str());
            out.append(&mut cs);
            push_label(&mut out, ", [");
            let mut a = dbg_chunks_chars(args, 0);
            out.append(&mut a);
            push_label(&mut out, "])");
            proof {
                assert(out@ =~= spec_render_tok(tok_view(*t)));
            }
            out
        },
        ExprToken::Var(id) => {
            let mut out: Vec<char> = Vec::new();
            push_label(&mut out, "Var(");
            let mut cs = chars_of(id.as_str());
            out.append(&mut cs);
            push_label(&mut out, ")");
            proof {
                assert(out@ =~= spec_render_tok(tok_view(*t)));
            }
            out
        },
        _ => {
            let out = dbg_tok_chars(t);
            proof {
                assert(out@ =~= spec_render_tok(tok_view(*t)));
            }
            out
        },
    }
}

pub(crate) fn render_chunk_go(toks: &Vec<ExprToken>, i: usize) -> (out: Vec<char>)
    requires
        i <= toks.len(),
    ensures
        out@ == spec_render_chunk(toks_view(toks@), i as int),
    decreases toks@.len() - i,
{
    let mut out: Vec<char> = Vec::new();
    if i < toks.len() {
        let mut head = render_tok_chars(&toks[i]);
        out.append(&mut head);
        let mut rest = render_chunk_go(toks, i + 1);
        out.append(&mut rest);
    }
    proof {
        assert(out@ =~= spec_render_chunk(toks_view(toks@), i as int));
    }
    out
}

impl ExprTokenChunk {
    /// The chunk's textual rendering: its tokens' renderings run together.
    /// This is the placeholder a format-string splice turns into.
    pub fn to_text(&self) -> (r: String)
        ensures
            r@ == spec_render_chunk(chunk_view(*self), 0),
    {
        let v = render_chunk_go(&self.0, 0);
        string_from_chars(&v)
    }
}

impl ExprToken {
    /// The token's textual rendering.
    pub fn to_text(&self) -> (r: String)
        ensures
            r@ == spec_render_tok(tok_view(*self)),
    {
        let v = render_tok_chars(self);
        string_from_chars(&v)
    }
}

} // verus!
