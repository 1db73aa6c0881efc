use vstd::prelude::*;

verus! {

broadcast use vstd::std_specs::vec::group_vec_axioms, vstd::seq::group_seq_axioms;

// ---------------------------------------------------------------------------
// Character classes
// ---------------------------------------------------------------------------

/// Whitespace as the grammar knows it: space, tab, carriage return, newline.
pub open spec fn is_ws(c: char) -> bool {
    c == ' ' || c == '\t' || c == '\r' || c == '\n'
}

/// Whitespace without the newline, for contexts where a line break stays
/// significant.
pub open spec fn is_ws_no_br(c: char) -> bool {
    c == ' ' || c == '\t' || c == '\r'
}

pub open spec fn is_alpha(c: char) -> bool {
    ('a' <= c && c <= 'z') || ('A' <= c && c <= 'Z')
}

/// The first character of an identifier: a letter or an underscore.
pub open spec fn is_id_start(c: char) -> bool {
    is_alpha(c) || c == '_'
}

/// A later character of an identifier: a letter, a digit or an underscore.
pub open spec fn is_id_char(c: char) -> bool {
    is_id_start(c) || ('0' <= c && c <= '9')
}

/// Membership in the digit set of the given radix (2, 8, 10 or 16; hex
/// digits in either case).
pub open spec fn is_digit_radix(c: char, radix: u32) -> bool {
    if radix == 2 {
        c == '0' || c == '1'
    } else if radix == 8 {
        '0' <= c && c <= '7'
    } else if radix == 10 {
        '0' <= c && c <= '9'
    } else {
        ('0' <= c && c <= '9') || ('a' <= c && c <= 'f') || ('A' <= c && c <= 'F')
    }
}

/// The numeric value of a digit character; 0 for anything else, so the
/// value is never negative.
pub open spec fn digit_val(c: char) -> int {
    if '0' <= c && c <= '9' {
        c as int - '0' as int
    } else if 'a' <= c && c <= 'f' {
        c as int - 'a' as int + 10
    } else if 'A' <= c && c <= 'F' {
        c as int - 'A' as int + 10
    } else {
        0
    }
}

// ---------------------------------------------------------------------------
// Runs and searches
// ---------------------------------------------------------------------------

/// The end of the maximal whitespace run starting at `pos`.
pub open spec fn ws_end(s: Seq<char>, pos: int) -> int
    decreases s.len() - pos,
{
    if pos < 0 || pos >= s.len() {
        pos
    } else if is_ws(s[pos]) {
        ws_end(s, pos + 1)
    } else {
        pos
    }
}

/// The end of the maximal newline-free whitespace run starting at `pos`.
pub open spec fn ws_no_br_end(s: Seq<char>, pos: int) -> int
    decreases s.len() - pos,
{
    if pos < 0 || pos >= s.len() {
        pos
    } else if is_ws_no_br(s[pos]) {
        ws_no_br_end(s, pos + 1)
    } else {
        pos
    }
}

/// The end of the maximal digit run of the given radix starting at `pos`.
pub open spec fn digits_end(s: Seq<char>, pos: int, radix: u32) -> int
    decreases s.len() - pos,
{
    if pos < 0 || pos >= s.len() {
        pos
    } else if is_digit_radix(s[pos], radix) {
        digits_end(s, pos + 1, radix)
    } else {
        pos
    }
}

/// The end of the maximal identifier-character run starting at `pos`.
pub open spec fn id_end(s: Seq<char>, pos: int) -> int
    decreases s.len() - pos,
{
    if pos < 0 || pos >= s.len() {
        pos
    } else if is_id_char(s[pos]) {
        id_end(s, pos + 1)
    } else {
        pos
    }
}

/// An identifier: a letter or underscore, then letters, digits and
/// underscores.  Yields the end position.
pub open spec fn spec_legal_id(s: Seq<char>, pos: int) -> Option<int> {
    if 0 <= pos && pos < s.len() && is_id_start(s[pos]) {
        Option::Some(id_end(s, pos + 1))
    } else {
        Option::None
    }
}

/// The first newline at or after `pos`, or -1 if none is left.
pub open spec fn find_nl(s: Seq<char>, pos: int) -> int
    decreases s.len() - pos,
{
    if pos < 0 || pos >= s.len() {
        -1
    } else if s[pos] == '\n' {
        pos
    } else {
        find_nl(s, pos + 1)
    }
}

/// The value of the digit run `s[from..to)` read in the given radix.
pub open spec fn digits_val(s: Seq<char>, from: int, to: int, radix: u32) -> int
    decreases to - from,
{
    if to <= from {
        0
    } else {
        digits_val(s, from, to - 1, radix) * (radix as int) + digit_val(s[to - 1])
    }
}

pub broadcast proof fn lemma_ws_end_le(s: Seq<char>, pos: int)
    ensures
        pos <= #[trigger] ws_end(s, pos),
        0 <= pos <= s.len() ==> ws_end(s, pos) <= s.len(),
    decreases s.len() - pos,
{
    if 0 <= pos && pos < s.len() && is_ws(s[pos]) {
        lemma_ws_end_le(s, pos + 1);
    }
}

pub broadcast proof fn lemma_ws_no_br_end_le(s: Seq<char>, pos: int)
    ensures
        pos <= #[trigger] ws_no_br_end(s, pos),
        0 <= pos <= s.len() ==> ws_no_br_end(s, pos) <= s.len(),
    decreases s.len() - pos,
{
    if 0 <= pos && pos < s.len() && is_ws_no_br(s[pos]) {
        lemma_ws_no_br_end_le(s, pos + 1);
    }
}

pub broadcast proof fn lemma_digits_end_le(s: Seq<char>, pos: int, radix: u32)
    ensures
        pos <= #[trigger] digits_end(s, pos, radix),
        0 <= pos <= s.len() ==> digits_end(s, pos, radix) <= s.len(),
    decreases s.len() - pos,
{
    if 0 <= pos && pos < s.len() && is_digit_radix(s[pos], radix) {
        lemma_digits_end_le(s, pos + 1, radix);
    }
}

pub broadcast proof fn lemma_id_end_le(s: Seq<char>, pos: int)
    ensures
        pos <= #[trigger] id_end(s, pos),
        0 <= pos <= s.len() ==> id_end(s, pos) <= s.len(),
    decreases s.len() - pos,
{
    if 0 <= pos && pos < s.len() && is_id_char(s[pos]) {
        lemma_id_end_le(s, pos + 1);
    }
}

pub proof fn lemma_digits_val_nonneg(s: Seq<char>, from: int, to: int, radix: u32)
    requires
        radix >= 2,
    ensures
        digits_val(s, from, to, radix) >= 0,
    decreases to - from,
{
    if to > from {
        lemma_digits_val_nonneg(s, from, to - 1, radix);
        let v = digits_val(s, from, to - 1, radix);
        assert(v * (radix as int) >= 0) by (nonlinear_arith)
            requires
                v >= 0,
                radix >= 2,
        ;
    }
}

/// Reading one more digit never shrinks the value.
pub proof fn lemma_digits_val_step_mono(s: Seq<char>, from: int, to: int, radix: u32)
    requires
        radix >= 2,
        to > from,
    ensures
        digits_val(s, from, to, radix) >= digits_val(s, from, to - 1, radix),
{
    lemma_digits_val_nonneg(s, from, to - 1, radix);
    let v = digits_val(s, from, to - 1, radix);
    assert(v * (radix as int) >= v) by (nonlinear_arith)
        requires
            v >= 0,
            radix >= 2,
    ;
}

// ---------------------------------------------------------------------------
// Executable counterparts
// ---------------------------------------------------------------------------

pub fn is_ws_exec(c: char) -> (r: bool)
    ensures
        r == is_ws(c),
{
    c == ' ' || c == '\t' || c == '\r' || c == '\n'
}

pub fn is_ws_no_br_exec(c: char) -> (r: bool)
    ensures
        r == is_ws_no_br(c),
{
    c == ' ' || c == '\t' || c == '\r'
}

pub fn is_id_start_exec(c: char) -> (r: bool)
    ensures
        r == is_id_start(c),
{
    ('a' <= c && c <= 'z') || ('A' <= c && c <= 'Z') || c == '_'
}

pub fn is_id_char_exec(c: char) -> (r: bool)
    ensures
        r == is_id_char(c),
{
    is_id_start_exec(c) || ('0' <= c && c <= '9')
}

pub fn is_digit_radix_exec(c: char, radix: u32) -> (r: bool)
    requires
        radix == 2 || radix == 8 || radix == 10 || radix == 16,
    ensures
        r == is_digit_radix(c, radix),
{
    if radix == 2 {
        c == '0' || c == '1'
    } else if radix == 8 {
        '0' <= c && c <= '7'
    } else if radix == 10 {
        '0' <= c && c <= '9'
    } else {
        ('0' <= c && c <= '9') || ('a' <= c && c <= 'f') || ('A' <= c && c <= 'F')
    }
}

pub fn ws_at(inp: &Vec<char>, pos: usize) -> (r: usize)
    requires
        pos <= inp.len(),
    ensures
        r == ws_end(inp@, pos as int),
        pos <= r <= inp.len(),
    decreases inp@.len() - pos,
{
    if pos < inp.len() && is_ws_exec(inp[pos]) {
        ws_at(inp, pos + 1)
    } else {
        pos
    }
}

pub fn ws_no_br_at(inp: &Vec<char>, pos: usize) -> (r: usize)
    requires
        pos <= inp.len(),
    ensures
        r == ws_no_br_end(inp@, pos as int),
        pos <= r <= inp.len(),
    decreases inp@.len() - pos,
{
    if pos < inp.len() && is_ws_no_br_exec(inp[pos]) {
        ws_no_br_at(inp, pos + 1)
    } else {
        pos
    }
}

pub fn digits_at(inp: &Vec<char>, pos: usize, radix: u32) -> (r: usize)
    requires
        pos <= inp.len(),
        radix == 2 || radix == 8 || radix == 10 || radix == 16,
    ensures
        r == digits_end(inp@, pos as int, radix),
        pos <= r <= inp.len(),
    decreases inp@.len() - pos,
{
    if pos < inp.len() && is_digit_radix_exec(inp[pos], radix) {
        digits_at(inp, pos + 1, radix)
    } else {
        pos
    }
}

pub fn find_nl_at(inp: &Vec<char>, pos: usize) -> (r: Option<usize>)
    requires
        pos <= inp.len(),
    ensures
        r is None ==> find_nl(inp@, pos as int) == -1,
        r is Some ==> r->0 == find_nl(inp@, pos as int) && pos <= r->0 < inp.len(),
    decreases inp@.len() - pos,
{
    if pos < inp.len() {
        if inp[pos] == '\n' {
            Some(pos)
        } else {
            find_nl_at(inp, pos + 1)
        }
    } else {
        None
    }
}

pub fn id_end_at(inp: &Vec<char>, pos: usize) -> (r: usize)
    requires
        pos <= inp.len(),
    ensures
        r == id_end(inp@, pos as int),
        pos <= r <= inp.len(),
    decreases inp@.len() - pos,
{
    if pos < inp.len() && is_id_char_exec(inp[pos]) {
        id_end_at(inp, pos + 1)
    } else {
        pos
    }
}

/// The identifier scanner: its end position when one starts at `pos`.
pub fn legal_id_at(inp: &Vec<char>, pos: usize) -> (r: Option<usize>)
    requires
        pos <= inp.len(),
    ensures
        r is None ==> spec_legal_id(inp@, pos as int) is None,
        r matches Some(e) ==> spec_legal_id(inp@, pos as int) == Option::Some(e as int) && pos < e
            <= inp.len(),
{
    if pos < inp.len() && is_id_start_exec(inp[pos]) {
        Some(id_end_at(inp, pos + 1))
    } else {
        None
    }
}

pub fn digit_val_exec(c: char) -> (r: u32)
    ensures
        r == digit_val(c),
        r <= 15,
{
    if '0' <= c && c <= '9' {
        c as u32 - '0' as u32
    } else if 'a' <= c && c <= 'f' {
        c as u32 - 'a' as u32 + 10
    } else if 'A' <= c && c <= 'F' {
        c as u32 - 'A' as u32 + 10
    } else {
        0
    }
}

/// Reads the digit run `inp[from..to)` in the given radix; `None` when the
/// value does not fit a 64-bit signed integer.
pub fn digits_value_at(inp: &Vec<char>, from: usize, to: usize, radix: u32) -> (r: Option<i64>)
    requires
        from <= to <= inp.len(),
        radix == 2 || radix == 8 || radix == 10 || radix == 16,
    ensures
        (r is Some) == (digits_val(inp@, from as int, to as int, radix) <= i64::MAX),
        r is Some ==> r->0 == digits_val(inp@, from as int, to as int, radix),
{
    let mut acc: u128 = 0;
    let mut over: bool = false;
    let mut i: usize = from;
    proof {
        lemma_digits_val_nonneg(inp@, from as int, from as int, radix);
    }
    while i < to
        invariant
            from <= i <= to <= inp.len(),
            radix == 2 || radix == 8 || radix == 10 || radix == 16,
            !over ==> acc == digits_val(inp@, from as int, i as int, radix),
            !over ==> acc <= i64::MAX,
            over ==> digits_val(inp@, from as int, i as int, radix) > i64::MAX,
        decreases to - i,
    {
        let d = digit_val_exec(inp[i]);
        proof {
            lemma_digits_val_nonneg(inp@, from as int, i as int, radix);
            lemma_digits_val_step_mono(inp@, from as int, i as int + 1, radix);
        }
        if !over {
            let step: u128 = acc * (radix as u128) + (d as u128);
            proof {
                let a = acc as int;
                let rx = radix as int;
                assert(a * rx <= 0x7fffffffffffffffint * 16) by (nonlinear_arith)
                    requires
                        0 <= a <= 0x7fffffffffffffffint,
                        2 <= rx <= 16,
                ;
            }
            if step > i64::MAX as u128 {
                over = true;
            } else {
                acc = step;
            }
        }
        i = i + 1;
    }
    if over {
        None
    } else {
        Some(acc as i64)
    }
}

// ---------------------------------------------------------------------------
// Text conversion
// ---------------------------------------------------------------------------

/// The characters of a text, in order, as a vector the scanners can index.
pub fn chars_of(s: &str) -> (r: Vec<char>)
    ensures
        r@ == s@,
{
    let n = s.unicode_len();
    let mut v: Vec<char> = Vec::new();
    let mut i: usize = 0;
    while i < n
        invariant
            i <= n,
            n == s@.len(),
            v@ == s@.subrange(0, i as int),
        decreases n - i,
    {
        v.push(s.get_char(i));
        proof {
            assert(v@ =~= s@.subrange(0, i as int + 1));
        }
        i = i + 1;
    }
    proof {
        assert(v@ =~= s@);
    }
    v
}

/// Relies on `Iterator::collect` for `String`: collecting characters
/// yields the string holding exactly those characters in order.
#[verifier::external_body]
pub fn string_from_chars(v: &Vec<char>) -> (r: String)
    ensures
        r@ == v@,
{
    v.iter().collect()
}

/// Relies on `char::from_u32`: every value below the surrogate range, and
/// every value from the end of the surrogate range up to the last code
/// point, converts to the character with exactly that scalar value.
#[verifier::external_body]
pub fn char_from_u32(v: u32) -> (r: char)
    requires
        v < 0xD800 || (0xE000 <= v && v <= 0x10FFFF),
    ensures
        r as u32 == v,
{
    match char::from_u32(v) {
        Some(c) => c,
        None => ' ',
    }
}

/// The characters `inp[from..to)` copied out as a vector of their own.
pub fn slice_chars(inp: &Vec<char>, from: usize, to: usize) -> (r: Vec<char>)
    requires
        from <= to <= inp.len(),
    ensures
        r@ == inp@.subrange(from as int, to as int),
{
    let mut v: Vec<char> = Vec::new();
    let mut i: usize = from;
    while i < to
        invariant
            from <= i <= to <= inp.len(),
            v@ == inp@.subrange(from as int, i as int),
        decreases to - i,
    {
        v.push(inp[i]);
        proof {
            assert(v@ =~= inp@.subrange(from as int, i as int + 1));
        }
        i = i + 1;
    }
    v
}

} // verus!
