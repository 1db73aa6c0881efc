use vstd::prelude::*;
use crate::chars::{chars_of, find_nl, find_nl_at, is_ws, is_ws_exec, slice_chars, string_from_chars, ws_at, ws_end};
use crate::error::ParseError;

verus! {

broadcast use vstd::std_specs::vec::group_vec_axioms, vstd::seq::group_seq_axioms;

// ---------------------------------------------------------------------------
// A `//` comment
// ---------------------------------------------------------------------------

/// What the comment production accepts at `pos`: optional whitespace, then
/// `//`, then a whitespace run, then the comment text up to the next
/// newline, which is consumed.  The result is the text and the position
/// after the newline; `None` when there is no `//` here or no newline left
/// to close the comment.
pub open spec fn spec_comment(s: Seq<char>, pos: int) -> Option<(Seq<char>, int)> {
    let p1 = ws_end(s, pos);
    if 0 <= p1 && p1 + 1 < s.len() && s[p1] == '/' && s[p1 + 1] == '/' {
        let p3 = ws_end(s, p1 + 2);
        let j = find_nl(s, p3);
        if j >= 0 {
            Option::Some((s.subrange(p3, j), j + 1))
        } else {
            Option::None
        }
    } else {
        Option::None
    }
}

/// The comment scanner: text range and stopping position on success.
pub fn comment_at(inp: &Vec<char>, pos: usize) -> (r: Option<(usize, usize, usize)>)
    requires
        pos <= inp.len(),
    ensures
        r is None ==> spec_comment(inp@, pos as int) is None,
        r is Some ==> {
            let (f, t, e) = r->0;
            &&& spec_comment(inp@, pos as int) == Option::Some(
                (inp@.subrange(f as int, t as int), e as int),
            )
            &&& f <= t <= inp.len()
            &&& pos < e <= inp.len()
        },
{
    let p1 = ws_at(inp, pos);
    if p1 < inp.len() && inp[p1] == '/' && p1 + 1 < inp.len() && inp[p1 + 1] == '/' {
        let p3 = ws_at(inp, p1 + 2);
        match find_nl_at(inp, p3) {
            Some(j) => Some((p3, j, j + 1)),
            None => None,
        }
    } else {
        None
    }
}

// ---------------------------------------------------------------------------
// The whitespace-and-comment skipper
// ---------------------------------------------------------------------------

/// Where skipping all whitespace and `//` comments from `pos` stops.  This
/// never fails: with nothing to skip it stays put.
pub open spec fn spec_sp(s: Seq<char>, pos: int) -> int
    decreases s.len() - pos,
{
    if pos < 0 || pos >= s.len() {
        pos
    } else if is_ws(s[pos]) {
        spec_sp(s, pos + 1)
    } else {
        match spec_comment(s, pos) {
            Option::Some((t, e)) => if pos < e <= s.len() {
                spec_sp(s, e)
            } else {
                pos
            },
            Option::None => pos,
        }
    }
}

pub broadcast proof fn lemma_spec_sp_le(s: Seq<char>, pos: int)
    ensures
        pos <= #[trigger] spec_sp(s, pos),
        0 <= pos <= s.len() ==> spec_sp(s, pos) <= s.len(),
    decreases s.len() - pos,
{
    if 0 <= pos && pos < s.len() {
        if is_ws(s[pos]) {
            lemma_spec_sp_le(s, pos + 1);
        } else {
            match spec_comment(s, pos) {
                Option::Some((t, e)) => {
                    if pos < e <= s.len() {
                        lemma_spec_sp_le(s, e);
                    }
                },
                Option::None => {},
            }
        }
    }
}

/// The skipper: returns the first position that is neither inside
/// whitespace nor inside a closed `//` comment.
pub fn sp_at(inp: &Vec<char>, pos: usize) -> (r: usize)
    requires
        pos <= inp.len(),
    ensures
        r == spec_sp(inp@, pos as int),
        pos <= r <= inp.len(),
    decreases inp@.len() - pos,
{
    if pos < inp.len() && is_ws_exec(inp[pos]) {
        sp_at(inp, pos + 1)
    } else if pos < inp.len() {
        match comment_at(inp, pos) {
            Some((_f, _t, e)) => sp_at(inp, e),
            None => pos,
        }
    } else {
        pos
    }
}

// ---------------------------------------------------------------------------
// Entry points on text
// ---------------------------------------------------------------------------

/// Skips whitespace and comments at the front of `i`; never fails.  Returns
/// the remaining text and, as the production's value, an empty string.
pub fn sp(i: &str) -> (r: (String, String))
    ensures
        r.0@ == i@.skip(spec_sp(i@, 0)),
        r.1@ == Seq::<char>::empty(),
{
    let v = chars_of(i);
    let e = sp_at(&v, 0);
    let rest = i.substring_char(e, i.unicode_len()).to_owned();
    proof {
        assert(rest@ =~= i@.skip(spec_sp(i@, 0)));
    }
    (rest, String::new())
}

/// Parses one comment at the front of `i` (leading whitespace allowed):
/// `//`, then the text up to the next newline, which is consumed.  Returns
/// the remaining text and the comment text; fails softly when there is no
/// comment or no closing newline.
pub fn comment(i: &str) -> (r: Result<(String, String), ParseError>)
    ensures
        r is Err ==> r->Err_0.context@.len() > 0 && r->Err_0.context@.last()@
            == "comment"@,
        spec_comment(i@, 0) matches Option::Some((t, e)) ==> {
            &&& r is Ok
            &&& r->Ok_0.1@ == t
            &&& r->Ok_0.0@ == i@.skip(e)
        },
        spec_comment(i@, 0) is None ==> r is Err && !r->Err_0.committed,
{
    let v = chars_of(i);
    match comment_at(&v, 0) {
        Some((f, t, e)) => {
            let text_v = slice_chars(&v, f, t);
            let text = string_from_chars(&text_v);
            let rest = i.substring_char(e, i.unicode_len()).to_owned();
            proof {
                assert(rest@ =~= i@.skip(e as int));
            }
            Ok((rest, text))
        },
        None => Err(ParseError::soft(0).ctx("comment")),
    }
}

} // verus!
