//! Moving between strings and the character sequences that the parser reads.

use vstd::prelude::*;
use vstd::string::*;

verus! {

/// `String::push` of std appends one character to the string and leaves the
/// characters before it as they were.
pub assume_specification[ String::push ](s: &mut String, c: char)
    ensures
        final(s)@ == old(s)@.push(c),
;

/// The characters of `text`, in order.
pub fn chars_of(text: &str) -> (r: Vec<char>)
    ensures
        r@ == text@,
{
    let mut v: Vec<char> = Vec::new();
    for c in it: text.chars()
        invariant
            it.seq() == text@,
            v@.len() == it.index(),
            forall|i: int| 0 <= i < v@.len() ==> v@[i] == it.seq()[i],
    {
        v.push(c);
    }
    assert(v@ =~= text@);
    v
}

/// The characters of `text` from `from` up to `to`, as a string.
pub fn text_of(text: &[char], from: usize, to: usize) -> (r: String)
    requires
        from <= to <= text@.len(),
    ensures
        r@ == text@.subrange(from as int, to as int),
{
    let mut s = String::new();
    let mut i: usize = from;
    while i < to
        invariant
            from <= i <= to <= text@.len(),
            s@ == text@.subrange(from as int, i as int),
        decreases to - i,
    {
        s.push(text[i]);
        i = i + 1;
        assert(s@ =~= text@.subrange(from as int, i as int));
    }
    s
}

/// Appends the characters of `text` to `out`.
pub fn push_text(out: &mut String, text: &String)
    ensures
        final(out)@ == old(out)@ + text@,
{
    out.append(text.as_str());
}

} // verus!
