use vstd::prelude::*;
use crate::ast::pub_matches;
use crate::chars::{
    char_from_u32, chars_of, digits_end, digits_val, digits_value_at, digits_at, is_ws, slice_chars,
    string_from_chars, ws_at, ws_end,
};
use crate::error::{ParseError, Pr};
use crate::expr_token::{expr_chunk_at, spec_parse_expr_token_chunk};
use crate::render::spec_render_chunk;

verus! {

broadcast use vstd::std_specs::vec::group_vec_axioms, vstd::seq::group_seq_axioms, vstd::utf8::char_u32_cast;

// ---------------------------------------------------------------------------
// Small bounds
// ---------------------------------------------------------------------------

pub open spec fn pow16(n: int) -> int
    decreases n,
{
    if n <= 0 {
        1
    } else {
        16 * pow16(n - 1)
    }
}

proof fn lemma_hex_val_bound(s: Seq<char>, from: int, to: int)
    requires
        from <= to,
    ensures
        0 <= digits_val(s, from, to, 16) < pow16(to - from),
    decreases to - from,
{
    if to > from {
        lemma_hex_val_bound(s, from, to - 1);
    }
}

// ---------------------------------------------------------------------------
// Unicode escapes
// ---------------------------------------------------------------------------

pub open spec fn valid_scalar(v: int) -> bool {
    (0 <= v && v < 0xD800) || (0xE000 <= v && v <= 0x10FFFF)
}

/// A unicode escape body: `u{H..H}` with one to six hex digits, or `uHHHH`
/// with exactly four; the value must be a valid scalar.
pub open spec fn spec_unicode(s: Seq<char>, pos: int) -> Option<(char, int)> {
    if 0 <= pos && pos < s.len() && s[pos] == 'u' {
        let b = pos + 1;
        if b < s.len() && s[b] == '{' {
            let hr = digits_end(s, b + 1, 16);
            let he = if hr > b + 7 {
                b + 7
            } else {
                hr
            };
            if he > b + 1 && he < s.len() && s[he] == '}' {
                let v = digits_val(s, b + 1, he, 16);
                if valid_scalar(v) {
                    Option::Some((((v as u32) as char), he + 1))
                } else {
                    Option::None
                }
            } else {
                Option::None
            }
        } else {
            let hr = digits_end(s, b, 16);
            if hr - b >= 4 {
                let v = digits_val(s, b, b + 4, 16);
                if valid_scalar(v) {
                    Option::Some((((v as u32) as char), b + 4))
                } else {
                    Option::None
                }
            } else {
                Option::None
            }
        }
    } else {
        Option::None
    }
}

pub(crate) fn unicode_at(inp: &Vec<char>, pos: usize) -> (r: Option<(char, usize)>)
    requires
        pos <= inp.len(),
    ensures
        r is None ==> spec_unicode(inp@, pos as int) is None,
        r matches Some((c, e)) ==> spec_unicode(inp@, pos as int) == Option::Some((c, e as int))
            && pos < e <= inp.len(),
{
    if pos < inp.len() && inp[pos] == 'u' {
        let b = pos + 1;
        if b < inp.len() && inp[b] == '{' {
            let hr = digits_at(inp, b + 1, 16);
            let he = if hr - (b + 1) > 6 {
                b + 7
            } else {
                hr
            };
            if he > b + 1 && he < inp.len() && inp[he] == '}' {
                proof {
                    lemma_hex_val_bound(inp@, b as int + 1, he as int);
                    reveal_with_fuel(pow16, 8);
                }
                match digits_value_at(inp, b + 1, he, 16) {
                    Some(v) => {
                        if (0 <= v && v < 0xD800) || (0xE000 <= v && v <= 0x10FFFF) {
                            Some((char_from_u32(v as u32), he + 1))
                        } else {
                            None
                        }
                    },
                    None => None,
                }
            } else {
                None
            }
        } else {
            let hr = digits_at(inp, b, 16);
            if hr - b >= 4 {
                proof {
                    lemma_hex_val_bound(inp@, b as int, b as int + 4);
                    reveal_with_fuel(pow16, 8);
                }
                match digits_value_at(inp, b, b + 4, 16) {
                    Some(v) => {
                        if (0 <= v && v < 0xD800) || (0xE000 <= v && v <= 0x10FFFF) {
                            Some((char_from_u32(v as u32), b + 4))
                        } else {
                            None
                        }
                    },
                    None => None,
                }
            } else {
                None
            }
        }
    } else {
        None
    }
}

// ---------------------------------------------------------------------------
// Escapes
// ---------------------------------------------------------------------------

/// An escaped character: a backslash followed by a unicode escape or by
/// one of `n r t b f \ / "`.
pub open spec fn spec_escaped_char(s: Seq<char>, pos: int) -> Option<(char, int)> {
    if 0 <= pos && pos < s.len() && s[pos] == '\\' {
        let b = pos + 1;
        match spec_unicode(s, b) {
            Option::Some((c, e)) => Option::Some((c, e)),
            Option::None => if b < s.len() {
                if s[b] == 'n' {
                    Option::Some(('\n', b + 1))
                } else if s[b] == 'r' {
                    Option::Some(('\r', b + 1))
                } else if s[b] == 't' {
                    Option::Some(('\t', b + 1))
                } else if s[b] == 'b' {
                    Option::Some(('\u{08}', b + 1))
                } else if s[b] == 'f' {
                    Option::Some(('\u{0C}', b + 1))
                } else if s[b] == '\\' {
                    Option::Some(('\\', b + 1))
                } else if s[b] == '/' {
                    Option::Some(('/', b + 1))
                } else if s[b] == '"' {
                    Option::Some(('"', b + 1))
                } else {
                    Option::None
                }
            } else {
                Option::None
            },
        }
    } else {
        Option::None
    }
}

pub(crate) fn escaped_char_at(inp: &Vec<char>, pos: usize) -> (r: Option<(char, usize)>)
    requires
        pos <= inp.len(),
    ensures
        r is None ==> spec_escaped_char(inp@, pos as int) is None,
        r matches Some((c, e)) ==> spec_escaped_char(inp@, pos as int) == Option::Some(
            (c, e as int),
        ) && pos < e <= inp.len(),
{
    if pos < inp.len() && inp[pos] == '\\' {
        let b = pos + 1;
        match unicode_at(inp, b) {
            Some((c, e)) => Some((c, e)),
            None => {
                if b < inp.len() {
                    let c = inp[b];
                    if c == 'n' {
                        Some(('\n', b + 1))
                    } else if c == 'r' {
                        Some(('\r', b + 1))
                    } else if c == 't' {
                        Some(('\t', b + 1))
                    } else if c == 'b' {
                        Some(('\u{08}', b + 1))
                    } else if c == 'f' {
                        Some(('\u{0C}', b + 1))
                    } else if c == '\\' {
                        Some(('\\', b + 1))
                    } else if c == '/' {
                        Some(('/', b + 1))
                    } else if c == '"' {
                        Some(('"', b + 1))
                    } else {
                        None
                    }
                } else {
                    None
                }
            },
        }
    } else {
        None
    }
}

/// An escaped line continuation: a backslash followed by at least one
/// whitespace character; both are discarded.
pub open spec fn spec_escaped_ws(s: Seq<char>, pos: int) -> Option<int> {
    if 0 <= pos && pos + 1 < s.len() && s[pos] == '\\' && is_ws(s[pos + 1]) {
        Option::Some(ws_end(s, pos + 1))
    } else {
        Option::None
    }
}

pub(crate) fn escaped_ws_at(inp: &Vec<char>, pos: usize) -> (r: Option<usize>)
    requires
        pos <= inp.len(),
    ensures
        r is None ==> spec_escaped_ws(inp@, pos as int) is None,
        r matches Some(e) ==> spec_escaped_ws(inp@, pos as int) == Option::Some(e as int) && pos
            < e <= inp.len(),
{
    if pos < inp.len() && inp[pos] == '\\' && pos + 1 < inp.len() && is_ws_exec2(inp[pos + 1]) {
        Some(ws_at(inp, pos + 1))
    } else {
        None
    }
}

fn is_ws_exec2(c: char) -> (r: bool)
    ensures
        r == is_ws(c),
{
    c == ' ' || c == '\t' || c == '\r' || c == '\n'
}

// ---------------------------------------------------------------------------
// The escaped-quoted form
// ---------------------------------------------------------------------------

/// The body of a `"..."` string: plain characters, escaped characters and
/// discarded line continuations, up to the first unescaped quote or lone
/// backslash.  Total: it stops where no fragment matches.
pub open spec fn spec_normal_string(s: Seq<char>, pos: int) -> (Seq<char>, int)
    decreases s.len() - pos,
{
    if pos < 0 || pos >= s.len() {
        (Seq::empty(), pos)
    } else if s[pos] != '\\' && s[pos] != '"' {
        let (rest, e) = spec_normal_string(s, pos + 1);
        (seq![s[pos]] + rest, e)
    } else {
        match spec_escaped_char(s, pos) {
            Option::Some((c, e)) => if pos < e <= s.len() {
                let (rest, e2) = spec_normal_string(s, e);
                (seq![c] + rest, e2)
            } else {
                (Seq::empty(), pos)
            },
            Option::None => match spec_escaped_ws(s, pos) {
                Option::Some(e) => if pos < e <= s.len() {
                    spec_normal_string(s, e)
                } else {
                    (Seq::empty(), pos)
                },
                Option::None => (Seq::empty(), pos),
            },
        }
    }
}

pub(crate) fn normal_string_at(inp: &Vec<char>, pos: usize) -> (r: (Vec<char>, usize))
    requires
        pos <= inp.len(),
    ensures
        (r.0@, r.1 as int) == spec_normal_string(inp@, pos as int),
        pos <= r.1 <= inp.len(),
    decreases inp@.len() - pos,
{
    if pos < inp.len() && inp[pos] != '\\' && inp[pos] != '"' {
        let c = inp[pos];
        let (rest, e) = normal_string_at(inp, pos + 1);
        let mut out: Vec<char> = Vec::new();
        out.push(c);
        let mut rest2 = rest;
        out.append(&mut rest2);
        proof {
            assert(out@ =~= seq![inp@[pos as int]] + spec_normal_string(inp@, pos as int + 1).0);
        }
        (out, e)
    } else if pos < inp.len() {
        match escaped_char_at(inp, pos) {
            Some((c, e)) => {
                let (rest, e2) = normal_string_at(inp, e);
                let mut out: Vec<char> = Vec::new();
                out.push(c);
                let mut rest2 = rest;
                out.append(&mut rest2);
                proof {
                    assert(out@ =~= seq![c] + spec_normal_string(inp@, e as int).0);
                }
                (out, e2)
            },
            None => {
                match escaped_ws_at(inp, pos) {
                    Some(e) => normal_string_at(inp, e),
                    None => (Vec::new(), pos),
                }
            },
        }
    } else {
        (Vec::new(), pos)
    }
}

// ---------------------------------------------------------------------------
// The raw hash-fenced form
// ---------------------------------------------------------------------------

/// The end of the maximal run of `#` starting at `pos`.
pub open spec fn hashes_end(s: Seq<char>, pos: int) -> int
    decreases s.len() - pos,
{
    if pos < 0 || pos >= s.len() {
        pos
    } else if s[pos] == '#' {
        hashes_end(s, pos + 1)
    } else {
        pos
    }
}

fn hashes_at(inp: &Vec<char>, pos: usize) -> (r: usize)
    requires
        pos <= inp.len(),
    ensures
        r == hashes_end(inp@, pos as int),
        pos <= r <= inp.len(),
    decreases inp@.len() - pos,
{
    if pos < inp.len() && inp[pos] == '#' {
        hashes_at(inp, pos + 1)
    } else {
        pos
    }
}

pub broadcast proof fn lemma_hashes_end_le(s: Seq<char>, pos: int)
    ensures
        pos <= #[trigger] hashes_end(s, pos),
        0 <= pos <= s.len() ==> hashes_end(s, pos) <= s.len(),
    decreases s.len() - pos,
{
    if 0 <= pos && pos < s.len() && s[pos] == '#' {
        lemma_hashes_end_le(s, pos + 1);
    }
}

/// Whether `n` hash characters stand at `pos`.
pub open spec fn hashes_match(s: Seq<char>, pos: int, n: int) -> bool
    decreases n,
{
    if n <= 0 {
        true
    } else {
        0 <= pos && pos < s.len() && s[pos] == '#' && hashes_match(s, pos + 1, n - 1)
    }
}

fn hashes_match_at(inp: &Vec<char>, pos: usize, n: usize) -> (r: bool)
    requires
        pos <= inp.len(),
    ensures
        r == hashes_match(inp@, pos as int, n as int),
    decreases n,
{
    if n == 0 {
        true
    } else {
        pos < inp.len() && inp[pos] == '#' && hashes_match_at(inp, pos + 1, n - 1)
    }
}

/// The first closing fence at or after `pos`: a quote followed by `n`
/// hashes.  Yields the position of the quote.
pub open spec fn find_fence(s: Seq<char>, pos: int, n: int) -> Option<int>
    decreases s.len() - pos,
{
    if pos < 0 || pos >= s.len() {
        Option::None
    } else if s[pos] == '"' && hashes_match(s, pos + 1, n) {
        Option::Some(pos)
    } else {
        find_fence(s, pos + 1, n)
    }
}

fn find_fence_at(inp: &Vec<char>, pos: usize, n: usize) -> (r: Option<usize>)
    requires
        pos <= inp.len(),
    ensures
        r is None ==> find_fence(inp@, pos as int, n as int) is None,
        r matches Some(j) ==> find_fence(inp@, pos as int, n as int) == Option::Some(j as int)
            && pos <= j < inp.len() && j + 1 + n <= inp.len(),
    decreases inp@.len() - pos,
{
    if pos < inp.len() {
        if inp[pos] == '"' && hashes_match_at(inp, pos + 1, n) {
            proof {
                lemma_hashes_match_len(inp@, pos as int + 1, n as int);
            }
            Some(pos)
        } else {
            find_fence_at(inp, pos + 1, n)
        }
    } else {
        None
    }
}

proof fn lemma_hashes_match_len(s: Seq<char>, pos: int, n: int)
    requires
        hashes_match(s, pos, n),
        0 <= pos <= s.len(),
    ensures
        pos + n <= s.len(),
    decreases n,
{
    if n > 0 {
        lemma_hashes_match_len(s, pos + 1, n - 1);
    }
}

/// The raw form after its `r` or `f` marker: `#`×N, a quote, verbatim
/// content, then the first quote followed by N hashes.  Yields the content
/// bounds and the position after the closing fence.
pub open spec fn spec_raw_str(s: Seq<char>, pos: int) -> Option<(int, int, int)> {
    let hr = hashes_end(s, pos);
    if 0 <= hr && hr < s.len() && s[hr] == '"' {
        match find_fence(s, hr + 1, hr - pos) {
            Option::Some(j) => Option::Some((hr + 1, j, j + 1 + (hr - pos))),
            Option::None => Option::None,
        }
    } else {
        Option::None
    }
}

pub(crate) fn raw_str_at(inp: &Vec<char>, pos: usize) -> (r: Option<(usize, usize, usize)>)
    requires
        pos <= inp.len(),
    ensures
        r is None ==> spec_raw_str(inp@, pos as int) is None,
        r matches Some((cs, ce, after)) ==> spec_raw_str(inp@, pos as int) == Option::Some(
            (cs as int, ce as int, after as int),
        ) && pos < cs <= ce && ce < after <= inp.len(),
{
    let hr = hashes_at(inp, pos);
    if hr < inp.len() && inp[hr] == '"' {
        let n = hr - pos;
        match find_fence_at(inp, hr + 1, n) {
            Some(j) => Some((hr + 1, j, j + 1 + n)),
            None => None,
        }
    } else {
        None
    }
}

// ---------------------------------------------------------------------------
// The interpolated form
// ---------------------------------------------------------------------------

/// One pass over the content of an `f` string: escaped characters are
/// decoded, line continuations dropped, each `${...}` splice replaced by
/// the textual rendering of its token chunk, plain characters kept.  Where
/// none of these matches (a lone `\` or `$`), the rest of the content is
/// dropped, as the grammar has it.  A committed failure or a numeric
/// overflow inside a splice is passed on.
pub open spec fn spec_fmt_frags(t: Seq<char>, q: int) -> Pr<Seq<char>>
    decreases t.len() - q, 300int,
{
    if q < 0 || q >= t.len() {
        Pr::Parsed(Seq::empty(), q)
    } else {
        match spec_escaped_char(t, q) {
            Option::Some((c, e)) => if q < e <= t.len() {
                match spec_fmt_frags(t, e) {
                    Pr::Parsed(rest, e2) => Pr::Parsed(seq![c] + rest, e2),
                    Pr::Soft => Pr::Soft,
                    Pr::Hard => Pr::Hard,
                    Pr::Over => Pr::Over,
                }
            } else {
                Pr::Parsed(Seq::empty(), q)
            },
            Option::None => match spec_escaped_ws(t, q) {
                Option::Some(e) => if q < e <= t.len() {
                    spec_fmt_frags(t, e)
                } else {
                    Pr::Parsed(Seq::empty(), q)
                },
                Option::None => match spec_parse_expr_token_chunk(t, q) {
                    Pr::Parsed(toks, e) => if q < e <= t.len() {
                        match spec_fmt_frags(t, e) {
                            Pr::Parsed(rest, e2) => Pr::Parsed(
                                spec_render_chunk(toks, 0) + rest,
                                e2,
                            ),
                            Pr::Soft => Pr::Soft,
                            Pr::Hard => Pr::Hard,
                            Pr::Over => Pr::Over,
                        }
                    } else {
                        Pr::Parsed(Seq::empty(), q)
                    },
                    Pr::Hard => Pr::Hard,
                    Pr::Over => Pr::Over,
                    Pr::Soft => if t[q] != '\\' && t[q] != '$' {
                        match spec_fmt_frags(t, q + 1) {
                            Pr::Parsed(rest, e2) => Pr::Parsed(seq![t[q]] + rest, e2),
                            Pr::Soft => Pr::Soft,
                            Pr::Hard => Pr::Hard,
                            Pr::Over => Pr::Over,
                        }
                    } else {
                        Pr::Parsed(Seq::empty(), q)
                    },
                },
            },
        }
    }
}

pub(crate) fn fmt_frags_at(inp: &Vec<char>, pos: usize) -> (r: Result<(Vec<char>, usize), ParseError>)
    requires
        pos <= inp.len(),
    ensures
        crate::ast::pr_matches(
            spec_fmt_frags(inp@, pos as int),
            r,
            |t: Vec<char>| t@,
            pos as int,
            inp@.len() as int,
        ),
    decreases inp@.len() - pos, 300int,
{
    if pos >= inp.len() {
        Ok((Vec::new(), pos))
    } else {
        match escaped_char_at(inp, pos) {
            Some((c, e)) => {
                match fmt_frags_at(inp, e) {
                    Ok((rest, e2)) => {
                        let mut out: Vec<char> = Vec::new();
                        out.push(c);
                        let mut rest2 = rest;
                        out.append(&mut rest2);
                        proof {
                            assert(out@ =~= seq![c] + spec_fmt_frags(inp@, e as int)->Parsed_0);
                        }
                        Ok((out, e2))
                    },
                    Err(e2) => Err(e2),
                }
            },
            None => {
                match escaped_ws_at(inp, pos) {
                    Some(e) => fmt_frags_at(inp, e),
                    None => {
                        match expr_chunk_at(inp, pos) {
                            Ok((chunk, e)) => {
                                if e <= pos {
                                    return Ok((Vec::new(), pos));
                                }
                                match fmt_frags_at(inp, e) {
                                    Ok((rest, e2)) => {
                                        let mut out = crate::render::render_chunk_go(&chunk.0, 0);
                                        let mut rest2 = rest;
                                        out.append(&mut rest2);
                                        proof {
                                            assert(out@ =~= spec_render_chunk(
                                                crate::ast::chunk_view(chunk),
                                                0,
                                            ) + spec_fmt_frags(inp@, e as int)->Parsed_0);
                                        }
                                        Ok((out, e2))
                                    },
                                    Err(e2) => Err(e2),
                                }
                            },
                            Err(err) => {
                                if err.committed {
                                    Err(err)
                                } else if inp[pos] != '\\' && inp[pos] != '$' {
                                    let c = inp[pos];
                                    match fmt_frags_at(inp, pos + 1) {
                                        Ok((rest, e2)) => {
                                            let mut out: Vec<char> = Vec::new();
                                            out.push(c);
                                            let mut rest2 = rest;
                                            out.append(&mut rest2);
                                            proof {
                                                assert(out@ =~= seq![c] + spec_fmt_frags(
                                                    inp@,
                                                    pos as int + 1,
                                                )->Parsed_0);
                                            }
                                            Ok((out, e2))
                                        },
                                        Err(e2) => Err(e2),
                                    }
                                } else {
                                    Ok((Vec::new(), pos))
                                }
                            },
                        }
                    },
                }
            },
        }
    }
}

/// The `f` form after its marker: a raw fence whose content is rescanned
/// for escapes and splices.
pub open spec fn spec_format_string(s: Seq<char>, pos: int) -> Pr<Seq<char>>
    decreases s.len() - pos, 20int,
{
    match spec_raw_str(s, pos) {
        Option::Some((cs, ce, after)) => if pos < cs <= ce && ce - cs < s.len() - pos && after
            <= s.len() {
            match spec_fmt_frags(s.subrange(cs, ce), 0) {
                Pr::Parsed(txt, _e) => Pr::Parsed(txt, after),
                Pr::Soft => Pr::Soft,
                Pr::Hard => Pr::Hard,
                Pr::Over => Pr::Over,
            }
        } else {
            Pr::Soft
        },
        Option::None => Pr::Soft,
    }
}

pub(crate) fn format_string_at(inp: &Vec<char>, pos: usize) -> (r: Result<
    (Vec<char>, usize),
    ParseError,
>)
    requires
        pos <= inp.len(),
    ensures
        crate::ast::pr_matches(
            spec_format_string(inp@, pos as int),
            r,
            |t: Vec<char>| t@,
            pos as int,
            inp@.len() as int,
        ),
    decreases inp@.len() - pos, 20int,
{
    match raw_str_at(inp, pos) {
        Some((cs, ce, after)) => {
            let inner = slice_chars(inp, cs, ce);
            match fmt_frags_at(&inner, 0) {
                Ok((txt, _e)) => Ok((txt, after)),
                Err(e) => Err(e),
            }
        },
        None => Err(ParseError::soft(pos)),
    }
}

// ---------------------------------------------------------------------------
// The string dispatcher
// ---------------------------------------------------------------------------

/// A string literal of the live grammar: escaped-quoted, raw hash-fenced,
/// or interpolated.
pub open spec fn spec_parse_string(s: Seq<char>, pos: int) -> Pr<Seq<char>>
    decreases s.len() - pos, 30int,
{
    if 0 <= pos && pos < s.len() && s[pos] == '"' {
        let (content, e) = spec_normal_string(s, pos + 1);
        if e < s.len() && s[e] == '"' {
            Pr::Parsed(content, e + 1)
        } else {
            Pr::Soft
        }
    } else if 0 <= pos && pos < s.len() && s[pos] == 'r' {
        match spec_raw_str(s, pos + 1) {
            Option::Some((cs, ce, after)) => Pr::Parsed(s.subrange(cs, ce), after),
            Option::None => Pr::Soft,
        }
    } else if 0 <= pos && pos < s.len() && s[pos] == 'f' {
        spec_format_string(s, pos + 1)
    } else {
        Pr::Soft
    }
}

/// A string literal of the constant grammar: the interpolated form is not
/// allowed here.
pub open spec fn spec_parse_literal_string(s: Seq<char>, pos: int) -> Pr<Seq<char>> {
    if 0 <= pos && pos < s.len() && s[pos] == '"' {
        let (content, e) = spec_normal_string(s, pos + 1);
        if e < s.len() && s[e] == '"' {
            Pr::Parsed(content, e + 1)
        } else {
            Pr::Soft
        }
    } else if 0 <= pos && pos < s.len() && s[pos] == 'r' {
        match spec_raw_str(s, pos + 1) {
            Option::Some((cs, ce, after)) => Pr::Parsed(s.subrange(cs, ce), after),
            Option::None => Pr::Soft,
        }
    } else {
        Pr::Soft
    }
}

pub(crate) fn string_at(inp: &Vec<char>, pos: usize) -> (r: Result<(Vec<char>, usize), ParseError>)
    requires
        pos <= inp.len(),
    ensures
        crate::ast::pr_matches(
            spec_parse_string(inp@, pos as int),
            r,
            |t: Vec<char>| t@,
            pos as int,
            inp@.len() as int,
        ),
    decreases inp@.len() - pos, 30int,
{
    if pos < inp.len() && inp[pos] == '"' {
        let (content, e) = normal_string_at(inp, pos + 1);
        if e < inp.len() && inp[e] == '"' {
            Ok((content, e + 1))
        } else {
            Err(ParseError::soft(e))
        }
    } else if pos < inp.len() && inp[pos] == 'r' {
        match raw_str_at(inp, pos + 1) {
            Some((cs, ce, after)) => Ok((slice_chars(inp, cs, ce), after)),
            None => Err(ParseError::soft(pos)),
        }
    } else if pos < inp.len() && inp[pos] == 'f' {
        format_string_at(inp, pos + 1)
    } else {
        Err(ParseError::soft(pos))
    }
}

pub(crate) fn literal_string_at(inp: &Vec<char>, pos: usize) -> (r: Result<
    (Vec<char>, usize),
    ParseError,
>)
    requires
        pos <= inp.len(),
    ensures
        crate::ast::pr_matches(
            spec_parse_literal_string(inp@, pos as int),
            r,
            |t: Vec<char>| t@,
            pos as int,
            inp@.len() as int,
        ),
{
    if pos < inp.len() && inp[pos] == '"' {
        let (content, e) = normal_string_at(inp, pos + 1);
        if e < inp.len() && inp[e] == '"' {
            Ok((content, e + 1))
        } else {
            Err(ParseError::soft(e))
        }
    } else if pos < inp.len() && inp[pos] == 'r' {
        match raw_str_at(inp, pos + 1) {
            Some((cs, ce, after)) => Ok((slice_chars(inp, cs, ce), after)),
            None => Err(ParseError::soft(pos)),
        }
    } else {
        Err(ParseError::soft(pos))
    }
}

// ---------------------------------------------------------------------------
// Entry points on text
// ---------------------------------------------------------------------------

/// Parses one string literal at the front of `i`: `"..."` with escapes,
/// `r#"..."#` raw with a matching hash fence, or `f#"..."#` with `${...}`
/// splices replaced by the rendering of their parsed token chunks.
pub fn parse_string(i: &str) -> (r: Result<(String, String), ParseError>)
    ensures
        r is Err ==> r->Err_0.context@.len() > 0 && r->Err_0.context@.last()@
            == "parse_string"@,
        pub_matches(spec_parse_string(i@, 0), i@, r, |t: String| t@),
{
    let v = chars_of(i);
    match string_at(&v, 0) {
        Ok((content, p)) => {
            let rest = i.substring_char(p, i.unicode_len()).to_owned();
            proof {
                assert(rest@ =~= i@.skip(p as int));
            }
            Ok((rest, string_from_chars(&content)))
        },
        Err(e) => Err(e.ctx("parse_string")),
    }
}

/// Parses one constant string literal at the front of `i`: the escaped or
/// the raw form; the interpolated form is rejected here.
pub fn parse_literal_string(i: &str) -> (r: Result<(String, String), ParseError>)
    ensures
        r is Err ==> r->Err_0.context@.len() > 0 && r->Err_0.context@.last()@
            == "parse_literal_string"@,
        pub_matches(spec_parse_literal_string(i@, 0), i@, r, |t: String| t@),
{
    let v = chars_of(i);
    match literal_string_at(&v, 0) {
        Ok((content, p)) => {
            let rest = i.substring_char(p, i.unicode_len()).to_owned();
            proof {
                assert(rest@ =~= i@.skip(p as int));
            }
            Ok((rest, string_from_chars(&content)))
        },
        Err(e) => Err(e.ctx("parse_literal_string")),
    }
}

} // verus!
