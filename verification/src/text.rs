//! White space as the tokenizer sees it, and the trimming of a token.
//!
//! The three specifications of standard library functions in this file are
//! assumed, not proved: everything else rests on them.

use vstd::prelude::*;

verus! {

/// Whether `c` carries the Unicode property `White_Space`.
pub open spec fn is_white_space(c: char) -> bool {
    let n = c as u32;
    ||| 0x09 <= n <= 0x0D
    ||| n == 0x20
    ||| n == 0x85
    ||| n == 0xA0
    ||| n == 0x1680
    ||| 0x2000 <= n <= 0x200A
    ||| n == 0x2028
    ||| n == 0x2029
    ||| n == 0x202F
    ||| n == 0x205F
    ||| n == 0x3000
}

/// `s` without the white space at its front.
pub open spec fn trim_front(s: Seq<char>) -> Seq<char>
    decreases s.len(),
{
    if s.len() > 0 && is_white_space(s.first()) {
        trim_front(s.drop_first())
    } else {
        s
    }
}

/// `s` without the white space at its back.
pub open spec fn trim_back(s: Seq<char>) -> Seq<char>
    decreases s.len(),
{
    if s.len() > 0 && is_white_space(s.last()) {
        trim_back(s.drop_last())
    } else {
        s
    }
}

/// `s` without the white space at either end.
pub open spec fn trimmed(s: Seq<char>) -> Seq<char> {
    trim_back(trim_front(s))
}

/// A token as the scanner emits it: not empty, and no white space at
/// either end.
pub open spec fn is_token(s: Seq<char>) -> bool {
    &&& s.len() > 0
    &&& !is_white_space(s.first())
    &&& !is_white_space(s.last())
}

/// Assumed of `char::is_whitespace` of the standard library: it answers
/// whether the character has the Unicode property `White_Space`, and the
/// code points with that property are the ones that `is_white_space` lists.
pub assume_specification[ char::is_whitespace ](c: char) -> (b: bool)
    ensures
        b == is_white_space(c),
;

/// Assumed of `str::trim` of the standard library: it returns the slice
/// that is left when the white space at the front and at the back is taken
/// away, white space being the characters with the Unicode property
/// `White_Space`.
pub assume_specification[ str::trim ](s: &str) -> (t: &str)
    ensures
        t@ == trimmed(s@),
;

/// Assumed of `String::push` of the standard library: it puts the
/// character at the end of the string and leaves the rest as it was.
pub assume_specification[ String::push ](s: &mut String, c: char)
    ensures
        final(s)@ == old(s)@.push(c),
;

/// What is left at the front after trimming is no white space.
pub proof fn lemma_trim_front_starts_with_text(s: Seq<char>)
    ensures
        trim_front(s).len() <= s.len(),
        trim_front(s).len() > 0 ==> !is_white_space(trim_front(s).first()),
    decreases s.len(),
{
    if s.len() > 0 && is_white_space(s.first()) {
        lemma_trim_front_starts_with_text(s.drop_first());
    }
}

/// Trimming the back leaves the front in place and ends in no white space.
pub proof fn lemma_trim_back_ends_with_text(s: Seq<char>)
    ensures
        trim_back(s).len() <= s.len(),
        trim_back(s).len() > 0 ==> !is_white_space(trim_back(s).last()),
        trim_back(s).len() > 0 ==> trim_back(s).first() == s.first(),
    decreases s.len(),
{
    if s.len() > 0 && is_white_space(s.last()) {
        lemma_trim_back_ends_with_text(s.drop_last());
    }
}

/// What trimming leaves is empty or a token.
pub proof fn lemma_trimmed_is_empty_or_token(s: Seq<char>)
    ensures
        trimmed(s).len() == 0 || is_token(trimmed(s)),
{
    lemma_trim_front_starts_with_text(s);
    lemma_trim_back_ends_with_text(trim_front(s));
}

/// Trimming leaves a token as it is.
pub proof fn lemma_token_is_fixed(s: Seq<char>)
    requires
        is_token(s),
    ensures
        trimmed(s) == s,
{
}

} // verus!
