//! The sizes that a keyed generic hash accepts.
use vstd::prelude::*;

verus! {

/// The shortest digest that can be asked for, in bytes.
pub const BYTES_MIN: usize = 16;

/// The longest digest that can be asked for, in bytes.
pub const BYTES_MAX: usize = 64;

/// The digest length that is recommended, in bytes.
pub const BYTES: usize = 32;

/// The shortest key, in bytes.
pub const KEYBYTES_MIN: usize = 16;

/// The longest key, in bytes.
pub const KEYBYTES_MAX: usize = 64;

/// Whether a digest of `out_len` bytes can be asked for, under a key of
/// `key_len` bytes if there is a key.
pub open spec fn sizes_fit(out_len: nat, key_len: Option<nat>) -> bool {
    &&& BYTES_MIN <= out_len <= BYTES_MAX
    &&& key_len is Some ==> KEYBYTES_MIN <= key_len->Some_0 <= KEYBYTES_MAX
}

/// Checks the sizes before a hash is asked for.
pub fn check_sizes(out_len: usize, key_len: Option<usize>) -> (fit: bool)
    ensures
        fit == sizes_fit(
            out_len as nat,
            match key_len {
                Some(n) => Some(n as nat),
                None => None,
            },
        ),
{
    if out_len < BYTES_MIN || out_len > BYTES_MAX {
        return false;
    }
    match key_len {
        Some(n) => KEYBYTES_MIN <= n && n <= KEYBYTES_MAX,
        None => true,
    }
}

} // verus!
