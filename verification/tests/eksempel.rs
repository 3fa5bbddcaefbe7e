use crust::eksempel::strlen;
use crust::eksempel::strlen2;

#[test]
fn strlen_counts_bytes() {
    assert_eq!(strlen("hello world"), 11);
    assert_eq!(strlen2("hei verden"), 10);
    assert_eq!(strlen(""), 0);
    assert_eq!(strlen("bl\u{e5}b\u{e6}r"), 8);
    assert_eq!(strlen2(&String::from("hello")), 5);
}
