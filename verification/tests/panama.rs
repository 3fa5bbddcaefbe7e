use crust::panama::four;
use crust::panama::one;
use crust::panama::three;
use crust::panama::two;

#[test]
fn ping_pong() {
    let (mut tx, mut rx) = one::channel();
    tx.send(42);
    assert_eq!(rx.recv(), 42);
}

#[test]
fn closed() {
    let (tx, mut rx) = one::channel::<()>();
    let _ = tx;
    let _ = &mut rx;
}

#[test]
fn lib_ping_pong() {
    let (mut tx, mut rx) = two::channel();
    tx.send(42);
    assert_eq!(rx.recv(), Some(42));
}

#[test]
fn closed_tx() {
    let (tx, mut rx) = two::channel::<()>();
    drop(tx);
    assert_eq!(rx.recv(), None);
}

#[test]
fn closed_rx() {
    let (mut tx, rx) = two::channel();
    drop(rx);
    tx.send(42);
}

#[test]
fn one_keeps_the_order_of_sending() {
    let (mut tx, mut rx) = one::channel();
    let mut other = tx.clone();
    tx.send(1);
    other.send(2);
    tx.send(3);
    assert_eq!(rx.recv(), 1);
    assert_eq!(rx.recv(), 2);
    assert_eq!(rx.recv(), 3);
}

#[test]
fn send_then_close_then_drain() {
    let (mut tx, mut rx) = two::channel();
    tx.send(42);
    drop(tx);
    assert_eq!(rx.recv(), Some(42));
    assert_eq!(rx.recv(), None);
    assert_eq!(rx.recv(), None);
}

#[test]
fn last_of_three_senders_closes() {
    let (tx, mut rx) = two::channel();
    let second = tx.clone();
    let mut third = second.clone();
    drop(tx);
    drop(second);
    third.send(7);
    assert_eq!(rx.recv(), Some(7));
    drop(third);
    assert_eq!(rx.recv(), None);
}

#[test]
fn two_keeps_the_order_of_sending() {
    let (mut tx, mut rx) = two::channel();
    for i in 0..100 {
        tx.send(i);
    }
    for i in 0..100 {
        assert_eq!(rx.recv(), Some(i));
    }
    drop(tx);
    assert_eq!(rx.recv(), None);
}

#[test]
fn items_survive_the_close() {
    let (mut tx, mut rx) = two::channel();
    tx.send("a");
    tx.send("b");
    drop(tx);
    assert_eq!(rx.recv(), Some("a"));
    assert_eq!(rx.recv(), Some("b"));
    assert_eq!(rx.recv(), None);
}

#[test]
fn three_carries_off_the_rest_of_the_queue() {
    let (mut tx, mut rx) = three::channel();
    assert_eq!(rx.buffered(), 0);
    for i in 1..=5 {
        tx.send(i);
    }
    assert_eq!(rx.recv(), Some(1));
    assert_eq!(rx.buffered(), 4);
    tx.send(6);
    assert_eq!(rx.recv(), Some(2));
    assert_eq!(rx.buffered(), 3);
    assert_eq!(rx.recv(), Some(3));
    assert_eq!(rx.recv(), Some(4));
    assert_eq!(rx.recv(), Some(5));
    assert_eq!(rx.buffered(), 0);
    assert_eq!(rx.recv(), Some(6));
    assert_eq!(rx.buffered(), 0);
    drop(tx);
    assert_eq!(rx.recv(), None);
    assert_eq!(rx.buffered(), 0);
}

#[test]
fn three_receives_what_two_receives() {
    let (mut plain_tx, mut plain_rx) = two::channel();
    let (mut batch_tx, mut batch_rx) = three::channel();
    let mut plain = Vec::new();
    let mut batch = Vec::new();
    let mut next = 0;
    for round in 1..8 {
        for _ in 0..round {
            plain_tx.send(next);
            batch_tx.send(next);
            next += 1;
        }
        for _ in 0..(round / 2 + 1) {
            plain.push(plain_rx.recv());
            batch.push(batch_rx.recv());
        }
    }
    drop(plain_tx);
    drop(batch_tx);
    loop {
        let p = plain_rx.recv();
        let b = batch_rx.recv();
        plain.push(p);
        batch.push(b);
        if p.is_none() {
            break;
        }
    }
    assert_eq!(plain, batch);
    let got: Vec<i32> = batch.iter().flatten().copied().collect();
    let sent: Vec<i32> = (0..next).collect();
    assert_eq!(got, sent);
}

#[test]
fn three_sees_the_close_with_clones() {
    let (tx, mut rx) = three::channel();
    let mut second = tx.clone();
    drop(tx);
    second.send(7);
    assert_eq!(rx.recv(), Some(7));
    drop(second);
    assert_eq!(rx.recv(), None);
}

#[test]
fn four_is_the_batching_consumer() {
    let (mut tx, mut rx): (two::Sender<i32>, four::Receiver<i32>) = four::channel();
    tx.send(1);
    tx.send(2);
    assert_eq!(rx.recv(), Some(1));
    assert_eq!(rx.buffered(), 1);
    drop(tx);
    assert_eq!(rx.recv(), Some(2));
    assert_eq!(rx.recv(), None);
}
