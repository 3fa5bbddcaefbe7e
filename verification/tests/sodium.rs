use crust::sodium::check_sizes;
use crust::sodium::BYTES;
use crust::sodium::BYTES_MAX;
use crust::sodium::BYTES_MIN;
use crust::sodium::KEYBYTES_MAX;
use crust::sodium::KEYBYTES_MIN;

#[test]
fn the_sizes_of_a_hash_are_bounded() {
    assert!(check_sizes(BYTES, None));
    assert!(check_sizes(BYTES_MIN, None));
    assert!(check_sizes(BYTES_MAX, None));
    assert!(!check_sizes(BYTES_MIN - 1, None));
    assert!(!check_sizes(BYTES_MAX + 1, None));
    assert!(!check_sizes(0, None));
    assert!(check_sizes(32, Some(KEYBYTES_MIN)));
    assert!(check_sizes(32, Some(KEYBYTES_MAX)));
    assert!(!check_sizes(32, Some(KEYBYTES_MIN - 1)));
    assert!(!check_sizes(32, Some(KEYBYTES_MAX + 1)));
    assert!(!check_sizes(15, Some(32)));
    assert_eq!((BYTES_MIN, BYTES, BYTES_MAX), (16, 32, 64));
    assert_eq!((KEYBYTES_MIN, KEYBYTES_MAX), (16, 64));
}
