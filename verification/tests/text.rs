use crust::text::chars_of;
use crust::text::find_char_in;
use crust::text::find_in;
use crust::text::stands_at;

#[test]
fn chars_of_keeps_every_character() {
    assert_eq!(chars_of("blåbær"), vec!['b', 'l', 'å', 'b', 'æ', 'r']);
    assert_eq!(chars_of(""), Vec::<char>::new());
}

#[test]
fn find_char_in_finds_the_first_or_the_end() {
    assert_eq!(find_char_in(&chars_of("hello world"), 'o'), 4);
    assert_eq!(find_char_in(&chars_of("hello world"), 'h'), 0);
    assert_eq!(find_char_in(&chars_of("hello world"), 'd'), 10);
    assert_eq!(find_char_in(&chars_of("hello world"), 'z'), 11);
    assert_eq!(find_char_in(&chars_of(""), 'z'), 0);
}

#[test]
fn find_in_finds_the_first_place() {
    let hay = chars_of("abcabcabd");
    assert_eq!(find_in(&hay, &chars_of("abc")), Some(0));
    assert_eq!(find_in(&hay, &chars_of("bca")), Some(1));
    assert_eq!(find_in(&hay, &chars_of("abd")), Some(6));
    assert_eq!(find_in(&hay, &chars_of("abcabcabd")), Some(0));
    assert_eq!(find_in(&hay, &chars_of("abcabcabdx")), None);
    assert_eq!(find_in(&hay, &chars_of("bd ")), None);
    assert_eq!(find_in(&hay, &chars_of("")), Some(0));
    assert_eq!(find_in(&chars_of(""), &chars_of("")), Some(0));
    assert_eq!(find_in(&chars_of(""), &chars_of("a")), None);
    assert_eq!(find_in(&chars_of("aaab"), &chars_of("aab")), Some(1));
}

#[test]
fn stands_at_compares_in_place() {
    let hay = chars_of("hello");
    assert!(stands_at(&hay, &chars_of("ell"), 1));
    assert!(!stands_at(&hay, &chars_of("ell"), 0));
    assert!(stands_at(&hay, &chars_of("lo"), 3));
    assert!(stands_at(&hay, &chars_of(""), 5));
    assert!(!stands_at(&hay, &chars_of(""), 6));
    assert!(!stands_at(&hay, &chars_of("lo"), 4));
    assert!(!stands_at(&hay, &chars_of("hello!"), 0));
}
