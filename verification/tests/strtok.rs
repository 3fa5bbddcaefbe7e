use crust::strtok::strtok;
use crust::strtok::strtok2;

#[test]
fn lib_it_works() {
    let mut x = "hello world";
    let hello = strtok(&mut x, ' ');
    assert_eq!(hello, "hello");
    assert_eq!(x, "world");
}

#[test]
fn strtok_takes_token_after_token() {
    let mut x = "a,b,,c";
    assert_eq!(strtok(&mut x, ','), "a");
    assert_eq!(x, "b,,c");
    assert_eq!(strtok(&mut x, ','), "b");
    assert_eq!(strtok(&mut x, ','), "");
    assert_eq!(x, "c");
    assert_eq!(strtok(&mut x, ','), "c");
    assert_eq!(x, "");
    assert_eq!(strtok(&mut x, ','), "");
    assert_eq!(x, "");
}

#[test]
fn strtok_without_the_delimiter_takes_all() {
    let mut x = "hello";
    assert_eq!(strtok(&mut x, ' '), "hello");
    assert_eq!(x, "");
}

#[test]
fn strtok_cuts_behind_a_wide_delimiter() {
    let mut x = "blåbær→syltetøy";
    assert_eq!(strtok(&mut x, '→'), "blåbær");
    assert_eq!(x, "syltetøy");
}

#[test]
fn strtok2_does_what_strtok_does() {
    let mut x = "hello world";
    let mut y = "hello world";
    assert_eq!(strtok2(&mut x, ' '), strtok(&mut y, ' '));
    assert_eq!(x, y);
    assert_eq!(x, "world");
    let mut x = "trailing ";
    assert_eq!(strtok2(&mut x, ' '), "trailing");
    assert_eq!(x, "");
}
