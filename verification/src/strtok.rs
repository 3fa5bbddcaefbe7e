//! Cutting the first token off a text.
use crate::text::chars_of;
use crate::text::find_char;
use crate::text::find_char_in;
use crate::text::lemma_find_char;
use vstd::prelude::*;
use vstd::string::StrSliceExecFns;

verus! {

/// The first token of `s`: what stands before the first `delimeter`, or all
/// of `s` where there is none.
pub open spec fn token_of(s: Seq<char>, delimeter: char) -> Seq<char> {
    s.take(find_char(s, delimeter))
}

/// What is left of `s` once its first token and the delimiter behind it are
/// cut off: nothing, where there was no delimiter.
pub open spec fn rest_of(s: Seq<char>, delimeter: char) -> Seq<char> {
    if find_char(s, delimeter) < s.len() {
        s.skip(find_char(s, delimeter) + 1)
    } else {
        Seq::empty()
    }
}

/// The token and the rest put `s` together again around the delimiter.
pub proof fn law_token_and_rest(s: Seq<char>, delimeter: char)
    ensures
        !token_of(s, delimeter).contains(delimeter),
        find_char(s, delimeter) < s.len() ==> s == token_of(s, delimeter) + seq![delimeter]
            + rest_of(s, delimeter),
        find_char(s, delimeter) >= s.len() ==> s == token_of(s, delimeter) && rest_of(
            s,
            delimeter,
        ).len() == 0,
{
    lemma_find_char(s, delimeter);
    let at = find_char(s, delimeter);
    if at < s.len() {
        assert(s =~= token_of(s, delimeter) + seq![delimeter] + rest_of(s, delimeter));
    } else {
        assert(s =~= token_of(s, delimeter));
    }
}

/// Cuts the first token off `*s` and returns it. `*s` is left with what
/// stands behind the first `delimeter`, or empty where there is none. The
/// token lives as long as the text, not as long as the borrow of `s`.
pub fn strtok<'a, 'b>(s: &'a mut &'b str, delimeter: char) -> (token: &'b str)
    ensures
        token@ == token_of((*old(s))@, delimeter),
        (*final(s))@ == rest_of((*old(s))@, delimeter),
{
    let text: &'b str = *s;
    let chars = chars_of(text);
    let at = find_char_in(&chars, delimeter);
    proof {
        lemma_find_char(text@, delimeter);
    }
    let token = text.substring_char(0, at);
    if at < chars.len() {
        *s = text.substring_char(at + 1, chars.len());
    } else {
        *s = text.substring_char(at, at);
    }
    proof {
        assert(token@ =~= token_of(text@, delimeter));
        assert((*s)@ =~= rest_of(text@, delimeter));
    }
    token
}

/// `strtok` with the borrow's lifetime left for the compiler to name.
pub fn strtok2<'s>(s: &'_ mut &'s str, delimeter: char) -> (token: &'s str)
    ensures
        token@ == token_of((*old(s))@, delimeter),
        (*final(s))@ == rest_of((*old(s))@, delimeter),
{
    strtok(s, delimeter)
}

} // verus!
