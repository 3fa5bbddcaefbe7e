//! Counting the handles on a shared value, so that the last one to go frees
//! it.
use vstd::prelude::*;

verus! {

/// The count after one more handle was made, if the count can hold it.
pub open spec fn count_after_clone(count: nat) -> Option<nat> {
    if count < usize::MAX {
        Some(count + 1)
    } else {
        None
    }
}

/// The count after a handle has gone, or nothing where it was the last one
/// and the value has to be freed.
pub open spec fn count_after_drop(count: nat) -> Option<nat> {
    if count <= 1 {
        None
    } else {
        Some((count - 1) as nat)
    }
}

/// Counts one more handle. There is no count for more handles than the
/// largest number.
pub fn cloned(count: usize) -> (next: Option<usize>)
    ensures
        next is Some == count_after_clone(count as nat) is Some,
        next is Some ==> next->Some_0 == count_after_clone(count as nat)->Some_0,
{
    if count < usize::MAX {
        Some(count + 1)
    } else {
        None
    }
}

/// Counts one handle out. Returns the handles that remain, or `None` where
/// the handle was the last one: the value is then to be freed.
pub fn dropped(count: usize) -> (next: Option<usize>)
    ensures
        next is Some == count_after_drop(count as nat) is Some,
        next is Some ==> next->Some_0 == count_after_drop(count as nat)->Some_0,
{
    if count <= 1 {
        None
    } else {
        Some(count - 1)
    }
}

/// The count after `clones` handles were made from the first one and `drops`
/// handles have gone, none of them the last.
pub open spec fn count_of(clones: nat, drops: nat) -> nat {
    (1 + clones - drops) as nat
}

/// The value is freed with the last handle and not before. While the count
/// says how many handles live, a drop frees the value exactly if it is the
/// drop of the only handle, and each clone and each other drop leaves the
/// count at the number of handles that live.
pub proof fn law_freed_with_the_last(clones: nat, drops: nat)
    requires
        drops <= clones,
        count_of(clones, drops) < usize::MAX,
    ensures
        count_after_clone(count_of(clones, drops)) == Some(count_of(clones + 1, drops)),
        count_after_drop(count_of(clones, drops)) is None <==> drops == clones,
        drops < clones ==> count_after_drop(count_of(clones, drops)) == Some(
            count_of(clones, drops + 1),
        ),
{
}

} // verus!
