//! Character classes of the language and the scans that find where a run of
//! one class ends.

use vstd::prelude::*;

verus! {

/// White space is what Unicode gives the property `White_Space`.
pub open spec fn white_space(c: char) -> bool {
    let n = c as u32;
    ||| 0x09 <= n <= 0x0d
    ||| n == 0x20
    ||| n == 0x85
    ||| n == 0xa0
    ||| n == 0x1680
    ||| 0x2000 <= n <= 0x200a
    ||| n == 0x2028
    ||| n == 0x2029
    ||| n == 0x202f
    ||| n == 0x205f
    ||| n == 0x3000
}

/// A name starts with an ASCII letter.
pub open spec fn name_start(c: char) -> bool {
    let n = c as u32;
    ||| 0x41 <= n <= 0x5a
    ||| 0x61 <= n <= 0x7a
}

/// A name goes on with ASCII letters, digits, `-` and `_`.
pub open spec fn name_char(c: char) -> bool {
    let n = c as u32;
    ||| name_start(c)
    ||| 0x30 <= n <= 0x39
    ||| c == '-'
    ||| c == '_'
}

/// The one reserved word.
pub open spec fn keyword_let() -> Seq<char> {
    seq!['l', 'e', 't']
}

/// A name is a letter followed by name characters.
pub open spec fn is_name(w: Seq<char>) -> bool {
    &&& w.len() > 0
    &&& name_start(w[0])
    &&& forall|i: int| 0 <= i < w.len() ==> name_char(#[trigger] w[i])
}

/// An identifier is a name that is not reserved.
pub open spec fn is_identifier(w: Seq<char>) -> bool {
    is_name(w) && w != keyword_let()
}

/// Where the run of white space that starts at `p` ends.
pub open spec fn spaces_end(s: Seq<char>, p: int) -> int
    decreases s.len() - p,
{
    if 0 <= p < s.len() && white_space(s[p]) {
        spaces_end(s, p + 1)
    } else {
        p
    }
}

/// Where the run of name characters that starts at `p` ends.
pub open spec fn name_end(s: Seq<char>, p: int) -> int
    decreases s.len() - p,
{
    if 0 <= p < s.len() && name_char(s[p]) {
        name_end(s, p + 1)
    } else {
        p
    }
}

/// The first place from `p` on that holds a double quote, or the length of
/// `s` where there is none.
pub open spec fn quote_at(s: Seq<char>, p: int) -> int
    decreases s.len() - p,
{
    if 0 <= p < s.len() && s[p] != '"' {
        quote_at(s, p + 1)
    } else {
        p
    }
}

/// `spaces_end` stops at the first place that holds no white space.
pub proof fn lemma_spaces_end(s: Seq<char>, p: int)
    ensures
        p <= spaces_end(s, p),
        p <= s.len() ==> spaces_end(s, p) <= s.len(),
        forall|i: int| p <= i < spaces_end(s, p) ==> 0 <= i < s.len() && white_space(#[trigger] s[i]),
        0 <= spaces_end(s, p) < s.len() ==> !white_space(s[spaces_end(s, p)]),
        spaces_end(s, spaces_end(s, p)) == spaces_end(s, p),
    decreases s.len() - p,
{
    if 0 <= p < s.len() && white_space(s[p]) {
        lemma_spaces_end(s, p + 1);
    }
}

/// `name_end` stops at the first place that holds no name character.
pub proof fn lemma_name_end(s: Seq<char>, p: int)
    ensures
        p <= name_end(s, p),
        p <= s.len() ==> name_end(s, p) <= s.len(),
        forall|i: int| p <= i < name_end(s, p) ==> 0 <= i < s.len() && name_char(#[trigger] s[i]),
        0 <= name_end(s, p) < s.len() ==> !name_char(s[name_end(s, p)]),
        0 <= p < s.len() && name_char(s[p]) ==> p < name_end(s, p),
    decreases s.len() - p,
{
    if 0 <= p < s.len() && name_char(s[p]) {
        lemma_name_end(s, p + 1);
    }
}

/// `quote_at` stops at the first double quote.
pub proof fn lemma_quote_at(s: Seq<char>, p: int)
    ensures
        p <= quote_at(s, p),
        p <= s.len() ==> quote_at(s, p) <= s.len(),
        forall|i: int| p <= i < quote_at(s, p) ==> 0 <= i < s.len() && #[trigger] s[i] != '"',
        0 <= quote_at(s, p) < s.len() ==> s[quote_at(s, p)] == '"',
    decreases s.len() - p,
{
    if 0 <= p < s.len() && s[p] != '"' {
        lemma_quote_at(s, p + 1);
    }
}

/// Tells whether `c` is white space.
pub fn is_white_space(c: char) -> (r: bool)
    ensures
        r == white_space(c),
{
    let n: u32 = c as u32;
    (0x09 <= n && n <= 0x0d) || n == 0x20 || n == 0x85 || n == 0xa0 || n == 0x1680 || (0x2000 <= n
        && n <= 0x200a) || n == 0x2028 || n == 0x2029 || n == 0x202f || n == 0x205f || n == 0x3000
}

/// Tells whether a name can start with `c`.
pub fn is_name_start(c: char) -> (r: bool)
    ensures
        r == name_start(c),
{
    let n: u32 = c as u32;
    (0x41 <= n && n <= 0x5a) || (0x61 <= n && n <= 0x7a)
}

/// Tells whether a name can go on with `c`.
pub fn is_name_char(c: char) -> (r: bool)
    ensures
        r == name_char(c),
{
    let n: u32 = c as u32;
    is_name_start(c) || (0x30 <= n && n <= 0x39) || c == '-' || c == '_'
}

/// Moves over white space: the result is the first place from `pos` on that
/// holds none.
pub fn skip_spaces(text: &[char], pos: usize) -> (end: usize)
    ensures
        end == spaces_end(text@, pos as int),
        pos <= end,
        pos <= text@.len() ==> end <= text@.len(),
{
    let mut i: usize = pos;
    while i < text.len() && is_white_space(text[i])
        invariant
            pos <= i,
            pos <= text@.len() ==> i <= text@.len(),
            spaces_end(text@, pos as int) == spaces_end(text@, i as int),
        decreases text@.len() - i,
    {
        i = i + 1;
    }
    i
}

/// Moves over name characters: the result is the first place from `pos` on
/// that holds none.
pub fn skip_name(text: &[char], pos: usize) -> (end: usize)
    ensures
        end == name_end(text@, pos as int),
        pos <= end,
        pos <= text@.len() ==> end <= text@.len(),
{
    let mut i: usize = pos;
    while i < text.len() && is_name_char(text[i])
        invariant
            pos <= i,
            pos <= text@.len() ==> i <= text@.len(),
            name_end(text@, pos as int) == name_end(text@, i as int),
        decreases text@.len() - i,
    {
        i = i + 1;
    }
    i
}

/// Finds the next double quote: the result is its place, or the length of
/// the text where none follows.
pub fn find_quote(text: &[char], pos: usize) -> (end: usize)
    ensures
        end == quote_at(text@, pos as int),
        pos <= end,
        pos <= text@.len() ==> end <= text@.len(),
{
    let mut i: usize = pos;
    while i < text.len() && text[i] != '"'
        invariant
            pos <= i,
            pos <= text@.len() ==> i <= text@.len(),
            quote_at(text@, pos as int) == quote_at(text@, i as int),
        decreases text@.len() - i,
    {
        i = i + 1;
    }
    i
}

} // verus!
