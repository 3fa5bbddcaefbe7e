//! Searching in text, by characters, and finding the bytes at which the
//! characters stand.
use vstd::prelude::*;
use vstd::utf8::encode_utf8;
use vstd::utf8::encode_utf8_first_scalar;
use vstd::utf8::encode_utf8_valid_utf8;
use vstd::utf8::is_char_boundary;
use vstd::utf8::pop_first_scalar;

verus! {

/// The length of the longest prefix of `s` in which `c` does not occur: the
/// place of the first `c`, or the length of `s` where there is none.
pub open spec fn find_char(s: Seq<char>, c: char) -> int
    decreases s.len(),
{
    if s.len() == 0 || s[0] == c {
        0
    } else {
        1 + find_char(s.drop_first(), c)
    }
}

/// What `find_char` finds: a place in `s` or its end, with no `c` before it
/// and, unless it is the end, a `c` at it.
pub proof fn lemma_find_char(s: Seq<char>, c: char)
    ensures
        0 <= find_char(s, c) <= s.len(),
        forall|j: int| 0 <= j < find_char(s, c) ==> s[j] != c,
        find_char(s, c) < s.len() ==> s[find_char(s, c)] == c,
    decreases s.len(),
{
    if s.len() > 0 && s[0] != c {
        let rest = s.drop_first();
        lemma_find_char(rest, c);
        assert forall|j: int| 0 <= j < find_char(s, c) implies s[j] != c by {
            if j > 0 {
                assert(s[j] == rest[j - 1]);
            }
        }
        assert(find_char(s, c) < s.len() ==> s[find_char(s, c)] == rest[find_char(rest, c)]);
    }
}

/// The place that `find_char` finds is the only one with no `c` before it
/// that holds a `c` or is the end.
pub proof fn lemma_find_char_is(s: Seq<char>, c: char, i: int)
    requires
        0 <= i <= s.len(),
        forall|j: int| 0 <= j < i ==> s[j] != c,
        i < s.len() ==> s[i] == c,
    ensures
        find_char(s, c) == i,
{
    lemma_find_char(s, c);
    let found = find_char(s, c);
    if found < i {
        assert(s[found] != c);
    } else if i < found {
        assert(s[i] != c);
    }
}

/// The characters of `s`, one by one.
pub fn chars_of(s: &str) -> (v: Vec<char>)
    ensures
        v@ == s@,
{
    let mut v: Vec<char> = Vec::new();
    for c in it: s.chars()
        invariant
            it.seq() == s@,
            v@ == s@.take(it.index() as int),
    {
        v.push(c);
        proof {
            assert(v@ =~= s@.take(it.index() + 1));
        }
    }
    proof {
        assert(v@ =~= s@);
    }
    v
}

/// Whether `needle` stands in `s` at place `at`.
pub open spec fn stands(s: Seq<char>, needle: Seq<char>, at: int) -> bool {
    0 <= at && at + needle.len() <= s.len() && s.subrange(at, at + needle.len()) == needle
}

/// The first place at or after `from` at which `needle` stands in `s`, if
/// there is one. The empty needle stands everywhere.
pub open spec fn find_from(s: Seq<char>, needle: Seq<char>, from: int) -> Option<int>
    decreases s.len() + 1 - from,
{
    if from < 0 || from + needle.len() > s.len() {
        None
    } else if stands(s, needle, from) {
        Some(from)
    } else {
        find_from(s, needle, from + 1)
    }
}

/// The first place at which `needle` stands in `s`, if there is one.
pub open spec fn find_text(s: Seq<char>, needle: Seq<char>) -> Option<int> {
    find_from(s, needle, 0)
}

/// What `find_from` finds: the needle stands at the place found and at no
/// place between `from` and it; where nothing is found, it stands at no
/// place from `from` on.
pub proof fn lemma_find_from(s: Seq<char>, needle: Seq<char>, from: int)
    requires
        0 <= from,
    ensures
        match find_from(s, needle, from) {
            Some(i) => {
                &&& from <= i
                &&& stands(s, needle, i)
                &&& forall|j: int| from <= j < i ==> !stands(s, needle, j)
            },
            None => forall|j: int| from <= j ==> !stands(s, needle, j),
        },
    decreases s.len() + 1 - from,
{
    if from + needle.len() <= s.len() && !stands(s, needle, from) {
        lemma_find_from(s, needle, from + 1);
    }
}

/// A needle of one character stands where `find_char` finds the character.
pub proof fn lemma_find_one_char(s: Seq<char>, c: char)
    ensures
        find_text(s, seq![c]) == if find_char(s, c) < s.len() {
            Some(find_char(s, c))
        } else {
            None
        },
{
    let needle = seq![c];
    lemma_find_char(s, c);
    lemma_find_from(s, needle, 0);
    let at = find_char(s, c);
    assert forall|j: int| 0 <= j < s.len() implies stands(s, needle, j) == (s[j] == c) by {
        if s[j] == c {
            assert(s.subrange(j, j + 1) =~= needle);
        } else {
            assert(s.subrange(j, j + 1)[0] == s[j]);
        }
    }
    match find_text(s, needle) {
        Some(i) => {
            lemma_find_char_is(s, c, i);
        },
        None => {
            if at < s.len() {
                assert(stands(s, needle, at));
            }
        },
    }
}

/// Whether `needle` stands at place `at` in `hay`.
pub fn stands_at(hay: &Vec<char>, needle: &Vec<char>, at: usize) -> (yes: bool)
    ensures
        yes == stands(hay@, needle@, at as int),
{
    if needle.len() > hay.len() || at > hay.len() - needle.len() {
        return false;
    }
    let ghost window = hay@.subrange(at as int, at + needle.len());
    let mut k: usize = 0;
    while k < needle.len()
        invariant
            k <= needle.len(),
            at + needle.len() <= hay.len(),
            window == hay@.subrange(at as int, at + needle.len()),
            forall|j: int| 0 <= j < k ==> window[j] == needle@[j],
        decreases needle.len() - k,
    {
        if hay[at + k] != needle[k] {
            proof {
                assert(window[k as int] != needle@[k as int]);
            }
            return false;
        }
        k = k + 1;
    }
    proof {
        assert(window =~= needle@);
    }
    true
}

/// The first place at which `needle` stands in `hay`, if there is one.
pub fn find_in(hay: &Vec<char>, needle: &Vec<char>) -> (found: Option<usize>)
    ensures
        found is Some == find_text(hay@, needle@) is Some,
        found is Some ==> found->Some_0 == find_text(hay@, needle@)->Some_0,
        found is Some ==> found->Some_0 + needle.len() <= hay.len(),
{
    if needle.len() > hay.len() {
        return None;
    }
    let last = hay.len() - needle.len();
    let mut at: usize = 0;
    loop
        invariant
            last == hay.len() - needle.len(),
            at <= last,
            find_text(hay@, needle@) == find_from(hay@, needle@, at as int),
        decreases last - at,
    {
        if stands_at(hay, needle, at) {
            return Some(at);
        }
        if at == last {
            proof {
                assert(find_from(hay@, needle@, at + 1) is None);
            }
            return None;
        }
        at = at + 1;
    }
}

/// The place of the first `c` in `hay`, or the length of `hay` where there
/// is none.
pub fn find_char_in(hay: &Vec<char>, c: char) -> (at: usize)
    ensures
        at == find_char(hay@, c),
{
    let mut at: usize = 0;
    while at < hay.len() && hay[at] != c
        invariant
            at <= hay.len(),
            forall|j: int| 0 <= j < at ==> hay@[j] != c,
        decreases hay.len() - at,
    {
        at = at + 1;
    }
    proof {
        lemma_find_char_is(hay@, c, at as int);
    }
    at
}

/// The number of bytes that the first `k` characters of `text` take in
/// UTF-8: the byte at which character `k` begins.
pub open spec fn bytes_before(text: Seq<char>, k: int) -> int {
    encode_utf8(text.take(k)).len() as int
}

/// A text is encoded piece by piece.
pub proof fn lemma_encode_concat(a: Seq<char>, b: Seq<char>)
    ensures
        encode_utf8(a + b) == encode_utf8(a) + encode_utf8(b),
    decreases a.len(),
{
    if a.len() == 0 {
        assert(a + b =~= b);
        assert(encode_utf8(a) + encode_utf8(b) =~= encode_utf8(b));
    } else {
        lemma_encode_concat(a.drop_first(), b);
        assert((a + b).drop_first() =~= a.drop_first() + b);
        assert(encode_utf8(a + b) =~= encode_utf8(a) + encode_utf8(b));
    }
}

/// The bytes of a text fall apart where a character begins: before the
/// byte at which character `k` begins stand the bytes of the characters
/// before `k`, from it on the bytes of the others.
pub proof fn lemma_encode_split(text: Seq<char>, k: int)
    requires
        0 <= k <= text.len(),
    ensures
        0 <= bytes_before(text, k) <= encode_utf8(text).len(),
        encode_utf8(text).subrange(0, bytes_before(text, k)) == encode_utf8(text.take(k)),
        encode_utf8(text).subrange(bytes_before(text, k), encode_utf8(text).len() as int)
            == encode_utf8(text.skip(k)),
{
    lemma_encode_concat(text.take(k), text.skip(k));
    assert(text.take(k) + text.skip(k) =~= text);
    let head = encode_utf8(text.take(k));
    let tail = encode_utf8(text.skip(k));
    assert((head + tail).subrange(0, head.len() as int) =~= head);
    assert((head + tail).subrange(head.len() as int, (head + tail).len() as int) =~= tail);
}

/// The byte at which a character begins is a character boundary.
pub proof fn lemma_boundary_before(text: Seq<char>, k: int)
    requires
        0 <= k <= text.len(),
    ensures
        is_char_boundary(encode_utf8(text), bytes_before(text, k)),
    decreases k,
{
    let bytes = encode_utf8(text);
    encode_utf8_valid_utf8(text);
    if k == 0 {
        assert(text.take(0) =~= Seq::<char>::empty());
    } else {
        let tail = text.drop_first();
        encode_utf8_first_scalar(text);
        assert(pop_first_scalar(bytes) =~= encode_utf8(tail));
        assert(text.take(k).drop_first() =~= tail.take(k - 1));
        assert(text.take(k)[0] == text[0]);
        lemma_encode_split(text, k);
        lemma_boundary_before(tail, k - 1);
        let first = vstd::utf8::encode_scalar(text[0] as u32);
        assert(first.len() >= 1);
        assert(bytes_before(text, k) == first.len() + bytes_before(tail, k - 1));
    }
}

} // verus!
