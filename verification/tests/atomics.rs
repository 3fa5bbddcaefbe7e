use crust::atomics::arena::Arena;
use crust::atomics::arena::Progress;
use crust::atomics::one;
use crust::atomics::protocol::Claim;
use crust::atomics::protocol::ClaimOrder;
use crust::atomics::protocol::Discipline;
use crust::atomics::protocol::Phase;
use crust::atomics::protocol::ReleaseOrder;
use crust::atomics::three;
use crust::atomics::two;
use std::sync::atomic::Ordering;

fn is_sync<T: Sync>(_: &T) {}

fn bump(v: &mut u64) {
    *v += 1;
}

fn holders(arena: &Arena) -> usize {
    (0..arena.threads()).filter(|&i| arena.lane(i).map(|l| l.phase) == Some(Phase::Holding)).count()
}

fn finished(arena: &Arena) -> bool {
    (0..arena.threads()).all(|i| arena.lane(i).map(|l| l.rounds) == Some(0))
}

fn play_in_turns(
    d: Discipline,
    threads: usize,
    rounds: usize,
    lucky: bool,
    stale: usize,
) -> (u64, usize) {
    let mut arena = Arena::new(d, threads, rounds);
    let mut most = 0;
    let mut turn = 0;
    while !finished(&arena) {
        assert!(arena.advance(d, turn % threads, lucky || (turn / 7) % 2 == 0, stale));
        most = most.max(holders(&arena));
        turn += 1;
    }
    (arena.counter(), most)
}

#[test]
fn one_counts_every_section_on_one_thread() {
    let l = one::Mutex::new(0u64);
    is_sync(&l);
    for _ in 0..10 {
        for _ in 0..100 {
            assert!(l.try_with_lock(8, bump).is_ok());
        }
    }
    assert_eq!(l.try_with_lock(8, |v: &mut u64| *v).ok(), Some(10 * 100));
}

#[test]
fn two_counts_every_section_on_one_thread() {
    let l = two::Mutex::new(0u64);
    is_sync(&l);
    for _ in 0..10 {
        for _ in 0..100 {
            let mut f: fn(&mut u64) = bump;
            loop {
                match l.try_with_lock(8, f) {
                    Ok(()) => break,
                    Err(back) => f = back,
                }
            }
        }
    }
    loop {
        if let Ok(v) = l.try_with_lock(8, |v: &mut u64| *v) {
            assert_eq!(v, 10 * 100);
            break;
        }
    }
}

#[test]
fn three_counts_every_section_on_one_thread() {
    let l = three::Mutex::new(0u64);
    is_sync(&l);
    for _ in 0..10 {
        for _ in 0..100 {
            let mut f: fn(&mut u64) = bump;
            loop {
                match l.try_with_lock(8, f) {
                    Ok(()) => break,
                    Err(back) => f = back,
                }
            }
        }
    }
    loop {
        if let Ok(v) = l.try_with_lock(8, |v: &mut u64| *v) {
            assert_eq!(v, 10 * 100);
            break;
        }
    }
}

#[test]
fn a_section_sees_what_the_last_one_wrote() {
    let l = three::Mutex::new(String::new());
    let mut wrote = false;
    while !wrote {
        wrote = l.try_with_lock(8, |s: &mut String| s.push_str("written inside")).is_ok();
    }
    loop {
        if let Ok(seen) = l.try_with_lock(8, |s: &mut String| s.clone()) {
            assert_eq!(seen, "written inside");
            break;
        }
    }
}

#[test]
fn with_lock_returns_what_the_section_returns() {
    let l = three::Mutex::new(vec![1, 2, 3]);
    loop {
        if let Ok(sum) = l.try_with_lock(8, |v: &mut Vec<i32>| v.iter().sum::<i32>()) {
            assert_eq!(sum, 6);
            break;
        }
    }
}

#[test]
fn no_budget_no_section() {
    let one = one::Mutex::new(0u64);
    let two = two::Mutex::new(0u64);
    let three = three::Mutex::new(0u64);
    assert!(one.try_with_lock(0, bump).is_err());
    assert!(two.try_with_lock(0, bump).is_err());
    assert!(three.try_with_lock(0, bump).is_err());
    assert!(one.try_with_lock(1, bump).is_err());
    assert_eq!(one.try_with_lock(8, |v: &mut u64| *v).ok(), Some(0));
    assert!(!one.is_locked());
    assert!(!two.is_locked());
    assert!(!three.is_locked());
}

#[test]
fn a_held_lock_keeps_the_next_one_out() {
    let l = three::Mutex::new(0u64);
    loop {
        let entered = l.try_with_lock(8, |v: &mut u64| {
            assert!(l.is_locked());
            assert!(l.try_with_lock(64, bump).is_err());
            *v += 1;
        });
        if entered.is_ok() {
            break;
        }
    }
    assert!(!l.is_locked());
    let l = two::Mutex::new(0u64);
    loop {
        let entered = l.try_with_lock(8, |v: &mut u64| {
            assert!(l.try_with_lock(64, bump).is_err());
            *v += 1;
        });
        if entered.is_ok() {
            break;
        }
    }
    let l = one::Mutex::new(0u64);
    let entered = l.try_with_lock(8, |v: &mut u64| {
        assert!(l.try_with_lock(64, bump).is_err());
        *v += 1;
    });
    assert!(entered.is_ok());
    assert_eq!(l.try_with_lock(8, |v: &mut u64| *v).ok(), Some(1));
}

#[test]
fn the_tiers_differ_as_told() {
    let d = one::discipline();
    assert_eq!(d.entry, Phase::Watching);
    assert_eq!(d.claim, Claim::BlindStore);
    assert_eq!(d.on_claim, ClaimOrder::Relaxed);
    assert_eq!(d.on_release, ReleaseOrder::Relaxed);
    let d = two::discipline();
    assert_eq!(d.entry, Phase::Claiming);
    assert_eq!(d.claim, Claim::CompareExchange);
    assert_eq!(d.on_claim, ClaimOrder::Relaxed);
    assert_eq!(d.on_release, ReleaseOrder::Relaxed);
    let d = three::discipline();
    assert_eq!(d.entry, Phase::Claiming);
    assert_eq!(d.claim, Claim::CompareExchange);
    assert_eq!(d.on_claim, ClaimOrder::Acquire);
    assert_eq!(d.on_release, ReleaseOrder::Release);
    assert_eq!(d.on_claim.ordering(), Ordering::Acquire);
    assert_eq!(d.on_release.ordering(), Ordering::Release);
    assert_eq!(ClaimOrder::Relaxed.ordering(), Ordering::Relaxed);
    assert_eq!(ReleaseOrder::Relaxed.ordering(), Ordering::Relaxed);
}

#[test]
fn the_decisions_of_a_waiting_thread() {
    let d = three::discipline();
    assert_eq!(d.after_watch(true), Phase::Watching);
    assert_eq!(d.after_watch(false), Phase::Claiming);
    assert_eq!(d.after_claim(true), Phase::Holding);
    assert_eq!(d.after_claim(false), Phase::Watching);
    let d = one::discipline();
    assert_eq!(d.after_watch(true), Phase::Watching);
    assert_eq!(d.after_watch(false), Phase::Claiming);
    assert_eq!(d.after_claim(true), Phase::Holding);
    assert_eq!(d.after_claim(false), Phase::Holding);
}

#[test]
fn ten_threads_of_the_model_count_to_a_thousand() {
    assert_eq!(play_in_turns(two::discipline(), 10, 100, true, 0), (1000, 1));
    assert_eq!(play_in_turns(three::discipline(), 10, 100, true, 0), (1000, 1));
    assert_eq!(play_in_turns(three::discipline(), 10, 100, false, 0), (1000, 1));
    assert_eq!(play_in_turns(three::discipline(), 3, 7, false, 0), (21, 1));
}

#[test]
fn the_naive_tier_loses_an_increment_in_the_model() {
    let d = one::discipline();
    let mut arena = Arena::new(d, 2, 1);
    for turn in 0..4 {
        assert!(arena.advance(d, turn % 2, true, 0));
    }
    assert_eq!(holders(&arena), 2);
    assert!(arena.is_locked());
    for turn in 4..6 {
        assert!(arena.advance(d, turn % 2, true, 0));
    }
    assert_eq!(arena.lane(0).map(|l| l.progress), Some(Progress::Loaded(0)));
    assert_eq!(arena.lane(1).map(|l| l.progress), Some(Progress::Loaded(0)));
    for turn in 6..10 {
        assert!(arena.advance(d, turn % 2, true, 0));
    }
    assert!(finished(&arena));
    assert!(!arena.is_locked());
    assert_eq!(arena.counter(), 1);
}

#[test]
fn the_same_moves_lose_nothing_under_compare_and_set() {
    let d = three::discipline();
    let mut arena = Arena::new(d, 2, 1);
    let mut most = 0;
    for turn in 0..10 {
        assert!(arena.advance(d, turn % 2, true, 0));
        most = most.max(holders(&arena));
    }
    assert_eq!(most, 1);
    let mut turn = 0;
    while !finished(&arena) {
        assert!(arena.advance(d, turn % 2, true, 0));
        most = most.max(holders(&arena));
        turn += 1;
    }
    assert_eq!(most, 1);
    assert_eq!(arena.counter(), 2);
}

#[test]
fn a_thread_that_is_done_or_absent_does_not_move() {
    let d = two::discipline();
    let mut arena = Arena::new(d, 1, 0);
    assert!(arena.advance(d, 0, true, 0));
    assert!(arena.advance(d, 5, true, 0));
    assert_eq!(arena.lane(0).map(|l| l.phase), Some(Phase::Claiming));
    assert_eq!(arena.lane(0).map(|l| l.rounds), Some(0));
    assert_eq!(arena.lane(1), None);
    assert_eq!(arena.counter(), 0);
    assert!(!arena.is_locked());
    assert_eq!(arena.threads(), 1);
}

#[test]
fn the_correct_tier_counts_on_the_weakest_memory() {
    assert_eq!(play_in_turns(three::discipline(), 10, 100, true, 1), (1000, 1));
    assert_eq!(play_in_turns(three::discipline(), 4, 25, false, 3), (100, 1));
}

#[test]
fn the_relaxed_tier_misses_a_write_in_the_model() {
    let d = two::discipline();
    let mut arena = Arena::new(d, 2, 1);
    for _ in 0..4 {
        assert!(arena.advance(d, 0, true, 0));
    }
    assert_eq!(arena.counter(), 1);
    assert!(!arena.is_locked());
    assert!(arena.advance(d, 1, true, 1));
    assert_eq!(holders(&arena), 1);
    assert!(arena.advance(d, 1, true, 1));
    assert_eq!(arena.lane(1).map(|l| l.progress), Some(Progress::Loaded(0)));
    assert!(arena.advance(d, 1, true, 1));
    assert!(arena.advance(d, 1, true, 1));
    assert!(finished(&arena));
    assert_eq!(arena.counter(), 1);
    let (lost, most) = play_in_turns(d, 10, 100, true, 1);
    assert!(lost < 1000);
    assert_eq!(most, 1);
}

#[test]
fn the_same_lag_is_harmless_under_the_correct_tier() {
    let d = three::discipline();
    let mut arena = Arena::new(d, 2, 1);
    for _ in 0..4 {
        assert!(arena.advance(d, 0, true, 0));
    }
    for _ in 0..4 {
        assert!(arena.advance(d, 1, true, 1));
    }
    assert!(finished(&arena));
    assert_eq!(arena.counter(), 2);
}

#[test]
fn the_counter_stops_where_it_would_not_fit() {
    let d = three::discipline();
    assert!(d.publishing());
    assert!(!two::discipline().publishing());
    assert!(!one::discipline().publishing());
    let mut arena = Arena::new(d, 1, 2);
    for _ in 0..4 {
        assert!(arena.advance(d, 0, true, 0));
    }
    assert_eq!(arena.counter(), 1);
    assert_eq!(arena.lane(0).map(|l| l.rounds), Some(1));
}

#[test]
fn a_view_travels_with_the_flag_only_from_release_to_acquire() {
    let correct = three::discipline();
    let mut arena = Arena::new(correct, 2, 1);
    for _ in 0..4 {
        assert!(arena.advance(correct, 0, true, 0));
    }
    assert_eq!(arena.lane(0).map(|l| l.view), Some(1));
    assert_eq!(arena.lane(1).map(|l| l.view), Some(0));
    assert!(arena.advance(correct, 1, true, 5));
    assert_eq!(arena.lane(1).map(|l| l.view), Some(1));
    for half in [
        Discipline { on_release: ReleaseOrder::Relaxed, ..correct },
        Discipline { on_claim: ClaimOrder::Relaxed, ..correct },
    ] {
        assert!(!half.publishing());
        let mut arena = Arena::new(half, 2, 1);
        for _ in 0..4 {
            assert!(arena.advance(half, 0, true, 0));
        }
        assert!(arena.advance(half, 1, true, 1));
        assert_eq!(arena.lane(1).map(|l| l.view), Some(0));
        for _ in 0..3 {
            assert!(arena.advance(half, 1, true, 1));
        }
        assert!(finished(&arena));
        assert_eq!(arena.counter(), 1);
    }
}

#[test]
fn a_thread_reads_nothing_older_than_it_has_seen() {
    let d = two::discipline();
    let mut arena = Arena::new(d, 1, 3);
    let mut turn = 0;
    while !finished(&arena) {
        assert!(arena.advance(d, 0, true, 9));
        turn += 1;
    }
    assert_eq!(turn, 12);
    assert_eq!(arena.counter(), 3);
}
