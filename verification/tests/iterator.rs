use crust::iterator::flatten;
use crust::iterator::IntoSource;
use crust::iterator::IteratorExt;
use crust::iterator::Numbers;
use crust::iterator::Source;
use std::collections::VecDeque;

fn count<S: Source>(mut source: S) -> usize {
    let mut n = 0;
    while source.next().is_some() {
        n += 1;
    }
    n
}

fn collect<S: Source>(mut source: S) -> Vec<S::Item> {
    let mut all = Vec::new();
    while let Some(item) = source.next() {
        all.push(item);
    }
    all
}

fn collect_rev<S: Source>(mut source: S) -> Vec<S::Item> {
    let mut all = Vec::new();
    while let Some(item) = source.next_back() {
        all.push(item);
    }
    all
}

#[test]
fn empty() {
    assert_eq!(count(flatten(Vec::<Vec<()>>::new())), 0);
}

#[test]
fn lib_empty() {
    assert_eq!(count(flatten(VecDeque::<Vec<()>>::new())), 0);
}

#[test]
fn empty_wide() {
    assert_eq!(count(flatten(vec![Vec::<()>::new(), vec![], vec![]])), 0);
}

#[test]
fn lib_empty_wide() {
    assert_eq!(count(flatten(vec![Vec::<()>::new(), vec![], vec![]].into_source())), 0);
}

#[test]
fn one() {
    assert_eq!(count(flatten(vec![vec!["a"]])), 1);
}

#[test]
fn lib_one() {
    assert_eq!(count(flatten(vec![vec!["a"]].into_source())), 1);
}

#[test]
fn two() {
    assert_eq!(count(flatten(vec![vec!["a", "b"]])), 2);
}

#[test]
fn lib_two() {
    assert_eq!(count(flatten(vec![vec!["a", "b"]].into_source())), 2);
}

#[test]
fn two_wide() {
    assert_eq!(count(flatten(vec![vec!["a"], vec!["b"]])), 2);
}

#[test]
fn lib_two_wide() {
    assert_eq!(count(flatten(vec![vec!["a"], vec!["b"]].into_source())), 2);
}

#[test]
fn reverse() {
    assert_eq!(collect_rev(flatten(vec![vec!["a", "b"]])), vec!["b", "a"]);
}

#[test]
fn reverse_wide() {
    assert_eq!(collect_rev(flatten(vec![vec!["a"], vec!["b"]])), vec!["b", "a"]);
}

#[test]
fn both_ends() {
    let mut iter = flatten(vec![vec!["a1", "a2", "a3"], vec!["b1", "b2", "b3"]]);
    assert_eq!(iter.next(), Some("a1"));
    assert_eq!(iter.next_back(), Some("b3"));
    assert_eq!(iter.next(), Some("a2"));
    assert_eq!(iter.next_back(), Some("b2"));
    assert_eq!(iter.next(), Some("a3"));
    assert_eq!(iter.next_back(), Some("b1"));
    assert_eq!(iter.next(), None);
    assert_eq!(iter.next_back(), None);
}

#[test]
fn deep() {
    assert_eq!(count(flatten(flatten(vec![vec![vec![0, 1]]]))), 2);
}

#[test]
fn ext() {
    assert_eq!(count(vec![vec![0, 1]].into_source().our_flatten()), 2);
}

#[test]
fn flatten_keeps_the_order() {
    let nested = vec![vec![1, 2], vec![], vec![3], vec![4, 5, 6], vec![]];
    assert_eq!(collect(flatten(nested.clone())), vec![1, 2, 3, 4, 5, 6]);
    assert_eq!(collect_rev(flatten(nested)), vec![6, 5, 4, 3, 2, 1]);
}

#[test]
fn the_ends_meet_inside_one_sequence() {
    let mut iter = flatten(vec![vec![1, 2, 3, 4]]);
    assert_eq!(iter.next_back(), Some(4));
    assert_eq!(iter.next(), Some(1));
    assert_eq!(iter.next(), Some(2));
    assert_eq!(iter.next(), Some(3));
    assert_eq!(iter.next(), None);
    assert_eq!(iter.next_back(), None);
    let mut iter = flatten(vec![vec![1], vec![2, 3]]);
    assert_eq!(iter.next(), Some(1));
    assert_eq!(iter.next_back(), Some(3));
    assert_eq!(iter.next_back(), Some(2));
    assert_eq!(iter.next_back(), None);
    assert_eq!(iter.next(), None);
}

#[test]
fn a_vector_turns_into_a_source_in_order() {
    let mut source = vec![1, 2, 3].into_source();
    assert_eq!(source.next(), Some(1));
    assert_eq!(source.next_back(), Some(3));
    assert_eq!(source.next(), Some(2));
    assert_eq!(source.next(), None);
}

#[test]
fn inf() {
    let mut iter = flatten(crust::iterator::map(Numbers::from(0), |i| Numbers::new(0, i)));
    assert_eq!(iter.next(), Some(0));
    assert_eq!(iter.next(), Some(0));
    assert_eq!(iter.next(), Some(1));
}

#[test]
fn numbers_come_from_both_ends() {
    assert_eq!(collect(Numbers::new(3, 7)), vec![3, 4, 5, 6]);
    assert_eq!(collect_rev(Numbers::new(3, 7)), vec![6, 5, 4, 3]);
    assert_eq!(count(Numbers::new(7, 3)), 0);
    assert_eq!(count(Numbers::new(5, 5)), 0);
    let mut all = Numbers::from(u64::MAX - 2);
    assert_eq!(all.next(), Some(u64::MAX - 2));
    assert_eq!(all.next_back(), Some(u64::MAX - 1));
    assert_eq!(all.next(), None);
    assert_eq!(all.next_back(), None);
}

#[test]
fn a_mapped_source_applies_the_function_in_order() {
    assert_eq!(collect(crust::iterator::map(Numbers::new(1, 4), |i| i * 10)), vec![10, 20, 30]);
    assert_eq!(collect_rev(crust::iterator::map(vec!["a", "bb"].into_source(), |s: &str| s.len())), vec![2, 1]);
    assert_eq!(collect(flatten(crust::iterator::map(Numbers::new(0, 4), |i| Numbers::new(0, i)))), vec![0, 0, 1, 0, 1, 2]);
    let mut both = flatten(crust::iterator::map(Numbers::new(0, 4), |i| Numbers::new(0, i)));
    assert_eq!(both.next_back(), Some(2));
    assert_eq!(both.next(), Some(0));
    assert_eq!(both.next_back(), Some(1));
    assert_eq!(both.next_back(), Some(0));
    assert_eq!(both.next_back(), Some(1));
    assert_eq!(both.next(), Some(0));
    assert_eq!(both.next(), None);
    assert_eq!(both.next_back(), None);
}

#[test]
fn a_mapped_source_waits_for_the_first_call() {
    let calls = std::cell::Cell::new(0);
    let mut lazy = crust::iterator::map(Numbers::from(0), |i| {
        calls.set(calls.get() + 1);
        i + 1
    });
    assert_eq!(calls.get(), 0);
    assert_eq!(lazy.next(), Some(1));
    assert_eq!(lazy.next(), Some(2));
    assert_eq!(calls.get(), 2);
}
