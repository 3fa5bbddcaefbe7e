use crust::panama::state::Inner;
use std::collections::VecDeque;

#[test]
fn a_fresh_state_blocks_the_consumer() {
    let state = Inner::<u8>::new();
    assert!(state.is_empty());
    assert!(state.blocked());
}

#[test]
fn the_oldest_item_is_taken_first() {
    let mut state = Inner::new();
    state.push(1);
    state.push(2);
    state.push(3);
    assert!(!state.is_empty());
    assert!(!state.blocked());
    assert_eq!(state.take(), Some(1));
    assert_eq!(state.take(), Some(2));
    assert_eq!(state.take(), Some(3));
    assert_eq!(state.take(), None);
    assert!(state.blocked());
}

#[test]
fn the_last_sender_closes() {
    let mut state = Inner::<u8>::new();
    state.add_sender();
    state.add_sender();
    assert!(!state.remove_sender());
    assert!(!state.remove_sender());
    assert!(state.blocked());
    assert!(state.remove_sender());
    assert!(!state.blocked());
    assert!(state.is_empty());
    assert_eq!(state.take(), None);
    assert!(state.remove_sender());
    assert!(!state.blocked());
}

#[test]
fn a_closed_state_still_hands_out_what_is_queued() {
    let mut state = Inner::new();
    state.push("a");
    assert!(state.remove_sender());
    assert!(!state.blocked());
    assert_eq!(state.take(), Some("a"));
    assert!(!state.blocked());
    assert_eq!(state.take(), None);
}

#[test]
fn a_batch_is_the_front_and_all_behind_it() {
    let mut state = Inner::new();
    for i in 0..5 {
        state.push(i);
    }
    let (item, rest) = state.take_batch();
    assert_eq!(item, Some(0));
    assert_eq!(rest, VecDeque::from(vec![1, 2, 3, 4]));
    assert!(state.is_empty());
    assert!(state.blocked());
    state.push(5);
    let (item, rest) = state.take_batch();
    assert_eq!(item, Some(5));
    assert!(rest.is_empty());
    let (item, rest) = state.take_batch();
    assert_eq!(item, None);
    assert!(rest.is_empty());
}
