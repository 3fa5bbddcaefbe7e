//! Splitting a text at each occurrence of a delimiter.
//!
//! Places in a text are counted in characters; where a place is handed out
//! as a number, it is the byte at which the character begins.
use crate::text::bytes_before;
use crate::text::chars_of;
use crate::text::find_char;
use crate::text::find_char_in;
use crate::text::find_in;
use crate::text::find_text;
use crate::text::lemma_boundary_before;
use crate::text::lemma_encode_split;
use crate::text::lemma_find_char;
use crate::text::lemma_find_from;
use crate::text::lemma_find_one_char;
use vstd::prelude::*;
use vstd::string::StrSliceExecFns;
use vstd::string::StringSliceAdditionalSpecFns;
use vstd::utf8::encode_utf8_decode_utf8;

verus! {

/// The piece that a splitter hands out next: what stands before the next
/// delimiter, or all that remains where there is none. A splitter with no
/// remainder is done.
pub open spec fn next_piece(remainder: Option<Seq<char>>, cut: Option<(int, int)>) -> Option<
    Seq<char>,
> {
    match remainder {
        None => None,
        Some(text) => match cut {
            Some((start, end)) => Some(text.take(start)),
            None => Some(text),
        },
    }
}

/// What remains once the next piece is handed out: what stands behind the
/// next delimiter, or no remainder at all where there is no delimiter.
pub open spec fn after_piece(remainder: Option<Seq<char>>, cut: Option<(int, int)>) -> Option<
    Seq<char>,
> {
    match remainder {
        None => None,
        Some(text) => match cut {
            Some((start, end)) => Some(text.skip(end)),
            None => None,
        },
    }
}

/// Where `needle` stands first in `text`: the place of its first character
/// and the place behind its last.
pub open spec fn cut_at_text(text: Seq<char>, needle: Seq<char>) -> Option<(int, int)> {
    match find_text(text, needle) {
        Some(start) => Some((start, start + needle.len())),
        None => None,
    }
}

/// Where `c` stands first in `text`: its place and the place behind it.
pub open spec fn cut_at_char(text: Seq<char>, c: char) -> Option<(int, int)> {
    if find_char(text, c) < text.len() {
        Some((find_char(text, c), find_char(text, c) + 1))
    } else {
        None
    }
}

/// The view of a piece that may be absent.
pub open spec fn piece_view(piece: Option<&str>) -> Option<Seq<char>> {
    match piece {
        Some(text) => Some(text@),
        None => None,
    }
}

/// A splitter of a text at a delimiting text. It hands out the pieces
/// between the delimiters one by one, and an empty last piece where the text
/// ends in a delimiter.
#[derive(Debug, PartialEq)]
pub struct StrSplit<'haystack, 'delimeter> {
    remainder: Option<&'haystack str>,
    delimeter: &'delimeter str,
}

impl<'haystack, 'delimeter> StrSplit<'haystack, 'delimeter> {
    /// What is left to split, if the splitter is not done.
    pub closed spec fn remainder(&self) -> Option<Seq<char>> {
        piece_view(self.remainder)
    }

    /// The text at which this splitter splits.
    pub closed spec fn delimeter(&self) -> Seq<char> {
        self.delimeter@
    }

    /// A splitter that has all of `haystack` left to split.
    pub fn new(haystack: &'haystack str, delimeter: &'delimeter str) -> (split: Self)
        ensures
            split.remainder() == Some(haystack@),
            split.delimeter() == delimeter@,
    {
        Self { remainder: Some(haystack), delimeter }
    }

    /// Hands out the next piece, or `None` once the last piece is out.
    pub fn next(&mut self) -> (piece: Option<&'haystack str>)
        ensures
            final(self).delimeter() == old(self).delimeter(),
            old(self).remainder() is None ==> piece is None && final(self).remainder() is None,
            old(self).remainder() is Some ==> {
                let text = old(self).remainder()->Some_0;
                let cut = cut_at_text(text, old(self).delimeter());
                &&& piece_view(piece) == next_piece(Some(text), cut)
                &&& final(self).remainder() == after_piece(Some(text), cut)
            },
    {
        match self.remainder {
            None => None,
            Some(text) => {
                let hay = chars_of(text);
                let needle = chars_of(self.delimeter);
                proof {
                    lemma_find_from(hay@, needle@, 0);
                }
                match find_in(&hay, &needle) {
                    Some(start) => {
                        let piece = text.substring_char(0, start);
                        let rest = text.substring_char(start + needle.len(), hay.len());
                        self.remainder = Some(rest);
                        proof {
                            assert(piece@ =~= text@.take(start as int));
                            assert(rest@ =~= text@.skip(start + needle.len()));
                        }
                        Some(piece)
                    },
                    None => {
                        self.remainder = None;
                        Some(text)
                    },
                }
            },
        }
    }
}

/// Something at which a text can be split.
pub trait Delimeter {
    /// Where the delimiter stands first in `text`: the place of its first
    /// character and the place behind its last, if it stands there at all.
    spec fn locate(&self, text: Seq<char>) -> Option<(int, int)>;

    /// Finds where the delimiter stands first in `s`: the byte at which it
    /// begins and the byte behind its end. The places lie in `s`, the first
    /// not behind the second.
    fn find_next(&self, s: &str) -> (found: Option<(usize, usize)>)
        ensures
            found is Some == self.locate(s@) is Some,
            found is Some ==> 0 <= self.locate(s@)->Some_0.0 <= self.locate(s@)->Some_0.1
                <= s@.len(),
            found is Some ==> found->Some_0.0 == bytes_before(s@, self.locate(s@)->Some_0.0),
            found is Some ==> found->Some_0.1 == bytes_before(s@, self.locate(s@)->Some_0.1),
    ;
}

/// A splitter of a text at any kind of delimiter.
#[derive(Debug, PartialEq)]
pub struct StrSplit2<'haystack, D> {
    remainder: Option<&'haystack str>,
    delimeter: D,
}

impl<'haystack, D: Delimeter> StrSplit2<'haystack, D> {
    /// What is left to split, if the splitter is not done.
    pub closed spec fn remainder(&self) -> Option<Seq<char>> {
        piece_view(self.remainder)
    }

    /// The delimiter at which this splitter splits.
    pub closed spec fn delimeter(&self) -> D {
        self.delimeter
    }

    /// A splitter that has all of `haystack` left to split.
    pub fn new(haystack: &'haystack str, delimeter: D) -> (split: Self)
        ensures
            split.remainder() == Some(haystack@),
            split.delimeter() == delimeter,
    {
        Self { remainder: Some(haystack), delimeter }
    }

    /// Hands out the next piece, or `None` once the last piece is out.
    pub fn next(&mut self) -> (piece: Option<&'haystack str>)
        ensures
            final(self).delimeter() == old(self).delimeter(),
            old(self).remainder() is None ==> piece is None && final(self).remainder() is None,
            old(self).remainder() is Some ==> {
                let text = old(self).remainder()->Some_0;
                let cut = old(self).delimeter().locate(text);
                &&& piece_view(piece) == next_piece(Some(text), cut)
                &&& final(self).remainder() == after_piece(Some(text), cut)
            },
    {
        match self.remainder {
            None => None,
            Some(text) => {
                match self.delimeter.find_next(text) {
                    Some((start, end)) => {
                        let ghost cut = self.delimeter.locate(text@)->Some_0;
                        proof {
                            lemma_boundary_before(text@, cut.0);
                            lemma_boundary_before(text@, cut.1);
                            lemma_encode_split(text@, cut.0);
                            lemma_encode_split(text@, cut.1);
                        }
                        let (piece, _) = text.split_at(start);
                        let (_, rest) = text.split_at(end);
                        self.remainder = Some(rest);
                        proof {
                            encode_utf8_decode_utf8(piece@);
                            encode_utf8_decode_utf8(text@.take(cut.0));
                            encode_utf8_decode_utf8(rest@);
                            encode_utf8_decode_utf8(text@.skip(cut.1));
                            assert(piece@ == text@.take(cut.0));
                            assert(rest@ == text@.skip(cut.1));
                        }
                        Some(piece)
                    },
                    None => {
                        self.remainder = None;
                        Some(text)
                    },
                }
            },
        }
    }
}

/// The byte at which character `k` of `s` begins.
fn byte_place(s: &str, k: usize) -> (at: usize)
    requires
        k <= s@.len(),
    ensures
        at == bytes_before(s@, k as int),
{
    let head = s.substring_char(0, k);
    proof {
        assert(head@ =~= s@.take(k as int));
    }
    head.as_bytes().len()
}

impl Delimeter for &str {
    open spec fn locate(&self, text: Seq<char>) -> Option<(int, int)> {
        cut_at_text(text, self@)
    }

    fn find_next(&self, s: &str) -> (found: Option<(usize, usize)>) {
        let hay = chars_of(s);
        let needle = chars_of(self);
        proof {
            lemma_find_from(hay@, needle@, 0);
        }
        match find_in(&hay, &needle) {
            Some(start) => Some((byte_place(s, start), byte_place(s, start + needle.len()))),
            None => None,
        }
    }
}

impl Delimeter for char {
    open spec fn locate(&self, text: Seq<char>) -> Option<(int, int)> {
        cut_at_char(text, *self)
    }

    fn find_next(&self, s: &str) -> (found: Option<(usize, usize)>) {
        let hay = chars_of(s);
        let at = find_char_in(&hay, *self);
        if at < hay.len() {
            proof {
                lemma_find_char(s@, *self);
            }
            Some((byte_place(s, at), byte_place(s, at + 1)))
        } else {
            None
        }
    }
}

/// `format!("{}", c)`: the text that shows `c`, which is `c` alone.
#[verifier::external_body]
fn text_of_char(c: char) -> (text: String)
    ensures
        text@ == seq![c],
{
    format!("{}", c)
}

/// What stands in `s` before the first `c`, or all of `s` where there is
/// none; found by splitting at the text that holds `c` alone.
pub fn until_char(s: &str, c: char) -> (head: &str)
    ensures
        head@ == s@.take(find_char(s@, c)),
{
    let delim = text_of_char(c);
    let mut split = StrSplit::new(s, delim.as_str());
    proof {
        lemma_find_one_char(s@, c);
        lemma_find_char(s@, c);
    }
    let piece = split.next();
    let head = piece.unwrap();
    proof {
        assert(head@ =~= s@.take(find_char(s@, c)));
    }
    head
}

/// What stands in `s` before the first `c`, or all of `s` where there is
/// none; found by splitting at the character itself.
pub fn until_char2(s: &str, c: char) -> (head: &str)
    ensures
        head@ == s@.take(find_char(s@, c)),
{
    let mut split = StrSplit2::new(s, c);
    proof {
        lemma_find_char(s@, c);
    }
    let piece = split.next();
    let head = piece.unwrap();
    proof {
        assert(head@ =~= s@.take(find_char(s@, c)));
    }
    head
}

} // verus!
