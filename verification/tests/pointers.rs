use crust::pointers::cell::Cell;
use crust::pointers::rc::cloned;
use crust::pointers::rc::dropped;
use crust::pointers::refcell::RefCell;
use crust::pointers::refcell::RefState;

#[test]
fn a_cell_holds_what_was_last_set() {
    let x = Cell::new(42);
    assert_eq!(x.get(), 42);
    x.set(43);
    assert_eq!(x.get(), 43);
    let y = &x;
    y.set(44);
    assert_eq!(x.get(), 44);
    assert_eq!(x.replace(45), 44);
    assert_eq!(y.get(), 45);
}

#[test]
fn bad2() {
    let x = Cell::new(String::from("hello"));
    let first = x.replace(String::new());
    x.set(String::new());
    x.set(String::from("world"));
    assert_eq!(first, "hello");
    assert_eq!(x.replace(String::new()), "world");
}

#[test]
fn readers_share_and_shut_the_writer_out() {
    let cell = RefCell::new(5);
    let first = cell.borrow();
    assert!(first.is_some());
    let second = cell.borrow();
    assert!(second.is_some());
    assert_eq!(second.as_ref().map(|r| r.get()), Some(5));
    assert!(cell.borrow_mut().is_none());
    drop(first);
    assert!(cell.borrow_mut().is_none());
    drop(second);
    assert!(cell.borrow_mut().is_some());
}

#[test]
fn the_writer_shuts_everybody_out() {
    let cell = RefCell::new(5);
    let writer = cell.borrow_mut();
    assert!(writer.is_some());
    assert!(cell.borrow().is_none());
    assert!(cell.borrow_mut().is_none());
    let mut writer = writer.unwrap();
    assert_eq!(writer.get(), 5);
    writer.set(6);
    assert_eq!(writer.replace(7), 6);
    drop(writer);
    let reader = cell.borrow().unwrap();
    assert_eq!(reader.get(), 7);
}

#[test]
fn the_state_counts_the_readers() {
    assert_eq!(RefState::Unshared.share(), Some(RefState::Shared(1)));
    assert_eq!(RefState::Shared(1).share(), Some(RefState::Shared(2)));
    assert_eq!(RefState::Shared(usize::MAX).share(), None);
    assert_eq!(RefState::Exclusive.share(), None);
    assert_eq!(RefState::Unshared.lock(), Some(RefState::Exclusive));
    assert_eq!(RefState::Shared(1).lock(), None);
    assert_eq!(RefState::Exclusive.lock(), None);
    assert_eq!(RefState::Shared(2).unshare(), RefState::Shared(1));
    assert_eq!(RefState::Shared(1).unshare(), RefState::Unshared);
    assert_eq!(RefState::Unshared.unshare(), RefState::Unshared);
    assert_eq!(RefState::Exclusive.unshare(), RefState::Exclusive);
    assert_eq!(RefState::Exclusive.unlock(), RefState::Unshared);
    assert_eq!(RefState::Shared(3).unlock(), RefState::Shared(3));
    assert_eq!(RefState::Unshared.unlock(), RefState::Unshared);
}

#[test]
fn the_last_handle_frees() {
    assert_eq!(cloned(1), Some(2));
    assert_eq!(cloned(usize::MAX - 1), Some(usize::MAX));
    assert_eq!(cloned(usize::MAX), None);
    assert_eq!(dropped(3), Some(2));
    assert_eq!(dropped(2), Some(1));
    assert_eq!(dropped(1), None);
    assert_eq!(dropped(0), None);
    let mut count = 1;
    for _ in 0..5 {
        count = cloned(count).unwrap();
    }
    for left in (1..=5).rev() {
        assert_eq!(dropped(count), Some(left));
        count = left;
    }
    assert_eq!(dropped(count), None);
}
