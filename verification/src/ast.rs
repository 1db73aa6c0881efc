use vstd::prelude::*;
use crate::error::{err_matches, ParseError, Pr};

verus! {

broadcast use vstd::std_specs::vec::group_vec_axioms, vstd::seq::group_seq_axioms;

// ---------------------------------------------------------------------------
// Floating-point literals
// ---------------------------------------------------------------------------

/// A floating-point literal, kept as text.
///
/// The numeric grammar decides between integer and float while scanning; a
/// float is handed on as the exact literal it was written as, normalised to
/// `digits ['.' digits] ['e' sign digits]` with a lower-case `e` and an
/// explicit sign.  Turning that text into a machine float is left to the
/// caller, so that everything in this crate stays on exact values.
#[derive(Debug, PartialEq, Eq)]
pub enum FloatLit {
    Dec(String),
    Infinity,
    NegInfinity,
    NaN,
}

pub enum FloatV {
    Dec(Seq<char>),
    Infinity,
    NegInfinity,
    NaN,
}

pub open spec fn float_view(f: FloatLit) -> FloatV {
    match f {
        FloatLit::Dec(s) => FloatV::Dec(s@),
        FloatLit::Infinity => FloatV::Infinity,
        FloatLit::NegInfinity => FloatV::NegInfinity,
        FloatLit::NaN => FloatV::NaN,
    }
}

// ---------------------------------------------------------------------------
// The abstract syntax tree
// ---------------------------------------------------------------------------

/// A metadata tag on a dictionary key: `@name`, `@name()` or
/// `@name(a, b, ...)`.  `value` is `None` for the bare form, `Some` of the
/// argument list otherwise; the arguments are constants.
#[derive(Debug, PartialEq)]
pub struct Annotation {
    pub name: String,
    pub value: Option<Vec<EsonLiteralSegment>>,
}

/// A dictionary key: a name with the annotations that preceded it.
///
/// Equality is on `name` alone, on purpose: annotations are metadata riding
/// on the identity, not part of it, so two keys with the same name collide
/// in a dictionary whatever their annotations say.
#[derive(Debug)]
pub struct Key {
    pub name: String,
    pub annotation: Option<Vec<Annotation>>,
}

/// A dictionary: entries in insertion order, names distinct.
///
/// Inserting a key whose name is already present overwrites that entry's
/// value and keeps the first-inserted key, as the key-identity rule asks.
#[derive(Debug, PartialEq)]
pub struct Dict {
    pub entries: Vec<(Key, EsonSegment)>,
}

/// The constant counterpart of [`Dict`], for contexts that exclude
/// expressions.
#[derive(Debug, PartialEq)]
pub struct LiteralDict {
    pub entries: Vec<(Key, EsonLiteralSegment)>,
}

/// A live value: anything the grammar can produce, including an unevaluated
/// expression literal.
#[derive(Debug, PartialEq)]
pub enum EsonSegment {
    Null,
    Str(String),
    Boolean(bool),
    Int(i64),
    Float(FloatLit),
    List(Vec<EsonSegment>),
    Dict(Dict),
    Expr(ExprTokenChunk),
}

/// A constant value: structurally [`EsonSegment`] without the expression
/// variant, used wherever the grammar requires a fully-resolved constant.
#[derive(Debug, PartialEq)]
pub enum EsonLiteralSegment {
    Null,
    Str(String),
    Boolean(bool),
    Int(i64),
    Float(FloatLit),
    List(Vec<EsonLiteralSegment>),
    Dict(LiteralDict),
}

/// One step of a reference path: `[0]` or `.field` / `["field"]`.
#[derive(Debug, PartialEq)]
pub enum RefIndex {
    Int(i16),
    Str(String),
}

/// A reference to enclosing or ambient data: `self`, `super` or `$`, with
/// the path steps that follow it.
#[derive(Debug, PartialEq)]
pub enum RefPronoun {
    Curr(Vec<RefIndex>),
    Super(Vec<RefIndex>),
    Root(Vec<RefIndex>),
}

/// The flat, ordered output of tokenizing one `${ ... }` body or one
/// function-call argument.
#[derive(Debug, PartialEq)]
pub struct ExprTokenChunk(pub Vec<ExprToken>);

/// One token of an expression body.
#[derive(Debug, PartialEq)]
pub enum ExprToken {
    Nil,
    Group(ExprTokenChunk),
    Val(EsonSegment),
    FnCall(String, Vec<ExprTokenChunk>),
    Var(String),
    Ref(RefPronoun),
    Pipe,
    Q,
    COLON,
    Eq,
    Ne,
    Le,
    Ge,
    And,
    Or,
    Not,
    Gt,
    Lt,
    Plus,
    Minus,
    Mul,
    Div,
    Mod,
    Eoi,
}

// ---------------------------------------------------------------------------
// Mathematical mirrors of the tree
// ---------------------------------------------------------------------------

pub struct AnnV {
    pub name: Seq<char>,
    pub value: Option<Seq<LitV>>,
}

pub struct KeyV {
    pub name: Seq<char>,
    pub annotation: Option<Seq<AnnV>>,
}

pub enum SegV {
    Null,
    Str(Seq<char>),
    Boolean(bool),
    Int(i64),
    Float(FloatV),
    List(Seq<SegV>),
    Dict(Seq<(KeyV, SegV)>),
    Expr(Seq<TokV>),
}

pub enum LitV {
    Null,
    Str(Seq<char>),
    Boolean(bool),
    Int(i64),
    Float(FloatV),
    List(Seq<LitV>),
    Dict(Seq<(KeyV, LitV)>),
}

pub enum RefIndexV {
    Int(i16),
    Str(Seq<char>),
}

pub enum RefPronounV {
    Curr(Seq<RefIndexV>),
    Super(Seq<RefIndexV>),
    Root(Seq<RefIndexV>),
}

pub enum TokV {
    Nil,
    Group(Seq<TokV>),
    Val(SegV),
    FnCall(Seq<char>, Seq<Seq<TokV>>),
    Var(Seq<char>),
    Ref(RefPronounV),
    Pipe,
    Q,
    COLON,
    Eq,
    Ne,
    Le,
    Ge,
    And,
    Or,
    Not,
    Gt,
    Lt,
    Plus,
    Minus,
    Mul,
    Div,
    Mod,
    Eoi,
}

// ---------------------------------------------------------------------------
// View functions: every executable tree maps to its mathematical mirror
// ---------------------------------------------------------------------------

pub open spec fn seg_view(s: EsonSegment) -> SegV
    decreases s,
{
    match s {
        EsonSegment::Null => SegV::Null,
        EsonSegment::Str(t) => SegV::Str(t@),
        EsonSegment::Boolean(b) => SegV::Boolean(b),
        EsonSegment::Int(i) => SegV::Int(i),
        EsonSegment::Float(f) => SegV::Float(float_view(f)),
        EsonSegment::List(v) => SegV::List(segs_view(v@)),
        EsonSegment::Dict(d) => SegV::Dict(entries_view(d.entries@)),
        EsonSegment::Expr(c) => SegV::Expr(toks_view(c.0@)),
    }
}

pub open spec fn segs_view(s: Seq<EsonSegment>) -> Seq<SegV>
    decreases s,
{
    Seq::new(s.len(), |i: int| if 0 <= i < s.len() {
        seg_view(s[i])
    } else {
        SegV::Null
    })
}

pub open spec fn entries_view(s: Seq<(Key, EsonSegment)>) -> Seq<(KeyV, SegV)>
    decreases s,
{
    Seq::new(s.len(), |i: int| if 0 <= i < s.len() {
        (key_view(s[i].0), seg_view(s[i].1))
    } else {
        (KeyV { name: Seq::empty(), annotation: Option::None }, SegV::Null)
    })
}

pub open spec fn lit_view(s: EsonLiteralSegment) -> LitV
    decreases s,
{
    match s {
        EsonLiteralSegment::Null => LitV::Null,
        EsonLiteralSegment::Str(t) => LitV::Str(t@),
        EsonLiteralSegment::Boolean(b) => LitV::Boolean(b),
        EsonLiteralSegment::Int(i) => LitV::Int(i),
        EsonLiteralSegment::Float(f) => LitV::Float(float_view(f)),
        EsonLiteralSegment::List(v) => LitV::List(lits_view(v@)),
        EsonLiteralSegment::Dict(d) => LitV::Dict(lentries_view(d.entries@)),
    }
}

pub open spec fn lits_view(s: Seq<EsonLiteralSegment>) -> Seq<LitV>
    decreases s,
{
    Seq::new(s.len(), |i: int| if 0 <= i < s.len() {
        lit_view(s[i])
    } else {
        LitV::Null
    })
}

pub open spec fn lentries_view(s: Seq<(Key, EsonLiteralSegment)>) -> Seq<(KeyV, LitV)>
    decreases s,
{
    Seq::new(s.len(), |i: int| if 0 <= i < s.len() {
        (key_view(s[i].0), lit_view(s[i].1))
    } else {
        (KeyV { name: Seq::empty(), annotation: Option::None }, LitV::Null)
    })
}

pub open spec fn ann_view(a: Annotation) -> AnnV
    decreases a,
{
    AnnV {
        name: a.name@,
        value: match a.value {
            Option::Some(v) => Option::Some(lits_view(v@)),
            Option::None => Option::None,
        },
    }
}

pub open spec fn anns_view(s: Seq<Annotation>) -> Seq<AnnV>
    decreases s,
{
    Seq::new(s.len(), |i: int| if 0 <= i < s.len() {
        ann_view(s[i])
    } else {
        AnnV { name: Seq::empty(), value: Option::None }
    })
}

pub open spec fn key_view(k: Key) -> KeyV
    decreases k,
{
    KeyV {
        name: k.name@,
        annotation: match k.annotation {
            Option::Some(v) => Option::Some(anns_view(v@)),
            Option::None => Option::None,
        },
    }
}

pub open spec fn refidx_view(r: RefIndex) -> RefIndexV {
    match r {
        RefIndex::Int(i) => RefIndexV::Int(i),
        RefIndex::Str(s) => RefIndexV::Str(s@),
    }
}

pub open spec fn refidxs_view(s: Seq<RefIndex>) -> Seq<RefIndexV> {
    Seq::new(s.len(), |i: int| if 0 <= i < s.len() {
        refidx_view(s[i])
    } else {
        RefIndexV::Int(0)
    })
}

pub open spec fn pronoun_view(p: RefPronoun) -> RefPronounV {
    match p {
        RefPronoun::Curr(v) => RefPronounV::Curr(refidxs_view(v@)),
        RefPronoun::Super(v) => RefPronounV::Super(refidxs_view(v@)),
        RefPronoun::Root(v) => RefPronounV::Root(refidxs_view(v@)),
    }
}

pub open spec fn tok_view(t: ExprToken) -> TokV
    decreases t,
{
    match t {
        ExprToken::Nil => TokV::Nil,
        ExprToken::Group(c) => TokV::Group(toks_view(c.0@)),
        ExprToken::Val(s) => TokV::Val(seg_view(s)),
        ExprToken::FnCall(name, args) => TokV::FnCall(name@, chunks_view(args@)),
        ExprToken::Var(name) => TokV::Var(name@),
        ExprToken::Ref(p) => TokV::Ref(pronoun_view(p)),
        ExprToken::Pipe => TokV::Pipe,
        ExprToken::Q => TokV::Q,
        ExprToken::COLON => TokV::COLON,
        ExprToken::Eq => TokV::Eq,
        ExprToken::Ne => TokV::Ne,
        ExprToken::Le => TokV::Le,
        ExprToken::Ge => TokV::Ge,
        ExprToken::And => TokV::And,
        ExprToken::Or => TokV::Or,
        ExprToken::Not => TokV::Not,
        ExprToken::Gt => TokV::Gt,
        ExprToken::Lt => TokV::Lt,
        ExprToken::Plus => TokV::Plus,
        ExprToken::Minus => TokV::Minus,
        ExprToken::Mul => TokV::Mul,
        ExprToken::Div => TokV::Div,
        ExprToken::Mod => TokV::Mod,
        ExprToken::Eoi => TokV::Eoi,
    }
}

pub open spec fn toks_view(s: Seq<ExprToken>) -> Seq<TokV>
    decreases s,
{
    Seq::new(s.len(), |i: int| if 0 <= i < s.len() {
        tok_view(s[i])
    } else {
        TokV::Eoi
    })
}

pub open spec fn chunk_view(c: ExprTokenChunk) -> Seq<TokV>
    decreases c,
{
    toks_view(c.0@)
}

pub open spec fn chunks_view(s: Seq<ExprTokenChunk>) -> Seq<Seq<TokV>>
    decreases s,
{
    Seq::new(s.len(), |i: int| if 0 <= i < s.len() {
        toks_view(s[i].0@)
    } else {
        Seq::empty()
    })
}

// ---------------------------------------------------------------------------
// Key identity
// ---------------------------------------------------------------------------

impl PartialEq for Key {
    /// Two keys are the same key exactly when their names are equal;
    /// annotations do not take part in identity.
    fn eq(&self, other: &Self) -> (r: bool) {
        self.name == other.name
    }
}

impl vstd::std_specs::cmp::PartialEqSpecImpl for Key {
    open spec fn obeys_eq_spec() -> bool {
        true
    }

    open spec fn eq_spec(&self, other: &Self) -> bool {
        self.name@ == other.name@
    }
}

impl From<&str> for Key {
    fn from(s: &str) -> (k: Key) {
        Key { name: s.to_owned(), annotation: None }
    }
}

impl vstd::std_specs::convert::FromSpecImpl<&str> for Key {
    open spec fn obeys_from_spec() -> bool {
        false
    }

    open spec fn from_spec(s: &str) -> Self {
        arbitrary()
    }
}

impl From<String> for Key {
    fn from(s: String) -> (k: Key) {
        Key { name: s, annotation: None }
    }
}

impl vstd::std_specs::convert::FromSpecImpl<String> for Key {
    open spec fn obeys_from_spec() -> bool {
        true
    }

    open spec fn from_spec(s: String) -> Self {
        Key { name: s, annotation: None }
    }
}

impl From<Key> for String {
    fn from(k: Key) -> (s: String) {
        k.name
    }
}

impl vstd::std_specs::convert::FromSpecImpl<Key> for String {
    open spec fn obeys_from_spec() -> bool {
        true
    }

    open spec fn from_spec(k: Key) -> Self {
        k.name
    }
}

// ---------------------------------------------------------------------------
// Dictionary insertion: last value wins, first key is kept
// ---------------------------------------------------------------------------

/// The first position whose key has the given name, or -1.
pub open spec fn spec_find_name<T>(entries: Seq<(KeyV, T)>, name: Seq<char>) -> int
    decreases entries.len(),
{
    if entries.len() == 0 {
        -1
    } else if entries[0].0.name == name {
        0
    } else {
        let r = spec_find_name(entries.drop_first(), name);
        if r == -1 {
            -1
        } else {
            r + 1
        }
    }
}

/// What inserting a pair into a dictionary yields: if the name is already
/// present, that entry's value is replaced and its key (the first-inserted
/// one, with its annotations) is kept; otherwise the pair is appended.
pub open spec fn spec_dict_insert<T>(entries: Seq<(KeyV, T)>, k: KeyV, v: T) -> Seq<(KeyV, T)> {
    let i = spec_find_name(entries, k.name);
    if i == -1 {
        entries.push((k, v))
    } else {
        entries.update(i, (entries[i].0, v))
    }
}

impl Dict {
    pub fn new() -> (d: Dict)
        ensures
            entries_view(d.entries@) == Seq::<(KeyV, SegV)>::empty(),
    {
        let d = Dict { entries: Vec::new() };
        proof {
            assert(entries_view(d.entries@) =~= Seq::<(KeyV, SegV)>::empty());
        }
        d
    }

    pub fn len(&self) -> (n: usize)
        ensures
            n == entries_view(self.entries@).len(),
    {
        self.entries.len()
    }

    /// Inserts `k: v`; on a name collision the old entry's value is
    /// replaced, its key kept.
    pub fn insert(&mut self, k: Key, v: EsonSegment)
        ensures
            entries_view(final(self).entries@) == spec_dict_insert(
                entries_view(old(self).entries@),
                key_view(k),
                seg_view(v),
            ),
    {
        let ghost before = entries_view(self.entries@);
        proof {
            lemma_find_name_first(before, k.name@);
        }
        let ghost fi = spec_find_name(before, k.name@);
        let mut i: usize = 0;
        while i < self.entries.len()
            invariant
                i <= self.entries@.len(),
                entries_view(self.entries@) == before,
                entries_view(old(self).entries@) == before,
                before.len() == self.entries@.len(),
                forall|j: int| 0 <= j < i ==> #[trigger] before[j].0.name != k.name@,
                fi == spec_find_name(before, k.name@),
                fi == -1 || (0 <= fi < before.len() && before[fi].0.name == k.name@),
            decreases self.entries@.len() - i,
        {
            if self.entries[i].0.name == k.name {
                proof {
                    lemma_find_name_first(before, k.name@);
                    assert(before[i as int].0.name == k.name@);
                    assert(fi == i as int);
                }
                let ghost oldents = self.entries@;
                let (old_key, _old_val) = self.entries.remove(i);
                self.entries.insert(i, (old_key, v));
                proof {
                    assert(self.entries@ =~= oldents.update(i as int, (oldents[i as int].0, v)));
                    assert forall|j: int| 0 <= j < before.len() implies entries_view(
                        self.entries@,
                    )[j] == spec_dict_insert(before, key_view(k), seg_view(v))[j] by {
                        assert(self.entries@[j] == oldents.update(
                            i as int,
                            (oldents[i as int].0, v),
                        )[j]);
                    }
                    assert(entries_view(self.entries@) =~= spec_dict_insert(
                        before,
                        key_view(k),
                        seg_view(v),
                    ));
                }
                return ;
            }
            i = i + 1;
        }
        proof {
            lemma_find_name_first(before, k.name@);
            assert(fi == -1);
        }
        self.entries.push((k, v));
        proof {
            assert(entries_view(self.entries@) =~= spec_dict_insert(
                before,
                key_view(k),
                seg_view(v),
            ));
        }
    }
}

impl LiteralDict {
    pub fn new() -> (d: LiteralDict)
        ensures
            lentries_view(d.entries@) == Seq::<(KeyV, LitV)>::empty(),
    {
        let d = LiteralDict { entries: Vec::new() };
        proof {
            assert(lentries_view(d.entries@) =~= Seq::<(KeyV, LitV)>::empty());
        }
        d
    }

    pub fn len(&self) -> (n: usize)
        ensures
            n == lentries_view(self.entries@).len(),
    {
        self.entries.len()
    }

    /// Inserts `k: v`; on a name collision the old entry's value is
    /// replaced, its key kept.
    pub fn insert(&mut self, k: Key, v: EsonLiteralSegment)
        ensures
            lentries_view(final(self).entries@) == spec_dict_insert(
                lentries_view(old(self).entries@),
                key_view(k),
                lit_view(v),
            ),
    {
        let ghost before = lentries_view(self.entries@);
        proof {
            lemma_find_name_first(before, k.name@);
        }
        let ghost fi = spec_find_name(before, k.name@);
        let mut i: usize = 0;
        while i < self.entries.len()
            invariant
                i <= self.entries@.len(),
                lentries_view(self.entries@) == before,
                lentries_view(old(self).entries@) == before,
                before.len() == self.entries@.len(),
                forall|j: int| 0 <= j < i ==> #[trigger] before[j].0.name != k.name@,
                fi == spec_find_name(before, k.name@),
                fi == -1 || (0 <= fi < before.len() && before[fi].0.name == k.name@),
            decreases self.entries@.len() - i,
        {
            if self.entries[i].0.name == k.name {
                proof {
                    lemma_find_name_first(before, k.name@);
                    assert(before[i as int].0.name == k.name@);
                    assert(fi == i as int);
                }
                let (old_key, _old_val) = self.entries.remove(i);
                self.entries.insert(i, (old_key, v));
                proof {
                    assert(lentries_view(self.entries@) =~= spec_dict_insert(
                        before,
                        key_view(k),
                        lit_view(v),
                    ));
                }
                return ;
            }
            i = i + 1;
        }
        proof {
            lemma_find_name_first(before, k.name@);
            assert(fi == -1);
        }
        self.entries.push((k, v));
        proof {
            assert(lentries_view(self.entries@) =~= spec_dict_insert(
                before,
                key_view(k),
                lit_view(v),
            ));
        }
    }
}

/// What a dictionary literal's entry sequence is: its key-value pairs
/// inserted left to right into an empty dictionary, duplicates collapsing
/// by the insertion rule.
pub open spec fn spec_dict_of_pairs<T>(pairs: Seq<(KeyV, T)>) -> Seq<(KeyV, T)>
    decreases pairs.len(),
{
    if pairs.len() == 0 {
        Seq::empty()
    } else {
        spec_dict_insert(
            spec_dict_of_pairs(pairs.drop_last()),
            pairs.last().0,
            pairs.last().1,
        )
    }
}

/// `spec_find_name` returns -1 exactly when no entry has the name, and
/// otherwise the first position that does.
pub proof fn lemma_find_name_first<T>(entries: Seq<(KeyV, T)>, name: Seq<char>)
    ensures
        spec_find_name(entries, name) == -1 ==> forall|j: int|
            0 <= j < entries.len() ==> #[trigger] entries[j].0.name != name,
        spec_find_name(entries, name) != -1 ==> {
            let i = spec_find_name(entries, name);
            &&& 0 <= i < entries.len()
            &&& entries[i].0.name == name
            &&& forall|j: int| 0 <= j < i ==> #[trigger] entries[j].0.name != name
        },
    decreases entries.len(),
{
    if entries.len() > 0 && entries[0].0.name != name {
        let rest = entries.drop_first();
        lemma_find_name_first(rest, name);
        assert forall|j: int| 1 <= j < entries.len() implies entries[j] == rest[j - 1] by {
            assert(rest[j - 1] == entries[j]);
        }
    }
}

pub proof fn lemma_key_identity_last_wins<T>(k1: KeyV, k2: KeyV, v1: T, v2: T)
    requires
        k1.name == k2.name,
    ensures
        spec_dict_insert(spec_dict_insert(Seq::<(KeyV, T)>::empty(), k1, v1), k2, v2) =~= seq![
            (k1, v2),
        ],
{
    let once = spec_dict_insert(Seq::<(KeyV, T)>::empty(), k1, v1);
    assert(once =~= seq![(k1, v1)]);
    assert(spec_find_name(once, k2.name) == 0);
}

/// The same law at the level of a parsed body: a dictionary literal whose
/// pairs carry the same name twice, whatever the annotations, denotes the
/// one-entry dictionary holding the first key and the second value.
pub proof fn lemma_two_pairs_last_wins<T>(k1: KeyV, k2: KeyV, v1: T, v2: T)
    requires
        k1.name == k2.name,
    ensures
        spec_dict_of_pairs(seq![(k1, v1), (k2, v2)]) =~= seq![(k1, v2)],
{
    let pairs = seq![(k1, v1), (k2, v2)];
    reveal_with_fuel(spec_dict_of_pairs, 4);
    assert(pairs.drop_last() =~= seq![(k1, v1)]);
    assert(seq![(k1, v1)].drop_last() =~= Seq::<(KeyV, T)>::empty());
    assert(pairs.last() == (k2, v2));
    assert(seq![(k1, v1)].last() == (k1, v1));
    assert(spec_dict_of_pairs(seq![(k1, v1)]) == spec_dict_insert(
        Seq::<(KeyV, T)>::empty(),
        k1,
        v1,
    ));
    lemma_key_identity_last_wins(k1, k2, v1, v2);
}

// ---------------------------------------------------------------------------
// Conversions kept from the tree's public surface
// ---------------------------------------------------------------------------

impl From<Vec<ExprToken>> for ExprTokenChunk {
    fn from(tokens: Vec<ExprToken>) -> (c: ExprTokenChunk) {
        ExprTokenChunk(tokens)
    }
}

impl vstd::std_specs::convert::FromSpecImpl<Vec<ExprToken>> for ExprTokenChunk {
    open spec fn obeys_from_spec() -> bool {
        true
    }

    open spec fn from_spec(tokens: Vec<ExprToken>) -> Self {
        ExprTokenChunk(tokens)
    }
}

impl From<ExprTokenChunk> for Vec<ExprToken> {
    fn from(chunk: ExprTokenChunk) -> (v: Vec<ExprToken>) {
        chunk.0
    }
}

impl vstd::std_specs::convert::FromSpecImpl<ExprTokenChunk> for Vec<ExprToken> {
    open spec fn obeys_from_spec() -> bool {
        true
    }

    open spec fn from_spec(chunk: ExprTokenChunk) -> Self {
        chunk.0
    }
}

// ---------------------------------------------------------------------------
// Result glue: how an executable outcome realises a specified one
// ---------------------------------------------------------------------------

/// An executable parse result realises a specified outcome when a parsed
/// value carries the specified view and a stopping position that moved
/// neither backwards nor past the end, and a failure carries the specified
/// failure mode.
pub open spec fn pr_matches<T, V>(
    sr: Pr<V>,
    r: Result<(T, usize), ParseError>,
    f: spec_fn(T) -> V,
    pos: int,
    len: int,
) -> bool {
    match sr {
        Pr::Parsed(v, p) => r is Ok && f(r->Ok_0.0) == v && r->Ok_0.1 == p && pos <= p <= len,
        Pr::Soft => r is Err && err_matches(true, false, false, r->Err_0),
        Pr::Hard => r is Err && err_matches(false, true, false, r->Err_0),
        Pr::Over => r is Err && err_matches(false, false, true, r->Err_0),
    }
}

/// How a text-level entry point realises a specified outcome: a parsed
/// value carries the specified view, and the remaining text is the input
/// from the stopping position on.
pub open spec fn pub_matches<T, V>(
    sr: Pr<V>,
    input: Seq<char>,
    r: Result<(String, T), ParseError>,
    f: spec_fn(T) -> V,
) -> bool {
    match sr {
        Pr::Parsed(v, p) => r is Ok && f(r->Ok_0.1) == v && r->Ok_0.0@ == input.skip(p),
        Pr::Soft => r is Err && err_matches(true, false, false, r->Err_0),
        Pr::Hard => r is Err && err_matches(false, true, false, r->Err_0),
        Pr::Over => r is Err && err_matches(false, false, true, r->Err_0),
    }
}

} // verus!
