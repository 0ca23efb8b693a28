use localchain::fanout::{Broadcaster, Received};

#[test]
fn two_subscribers_each_get_every_item_in_order() {
    let mut b: Broadcaster<u32> = Broadcaster::new(8);
    let first = b.subscribe();
    let second = b.subscribe();
    for x in [10, 20, 30] {
        b.publish(x);
    }
    for expected in [10, 20, 30] {
        assert_eq!(b.receive(first), Received::Item(expected));
    }
    assert_eq!(b.receive(first), Received::Empty);
    for expected in [10, 20, 30] {
        assert_eq!(b.receive(second), Received::Item(expected));
    }
    assert_eq!(b.receive(second), Received::Empty);
}

#[test]
fn late_subscriber_misses_earlier_items() {
    let mut b: Broadcaster<u32> = Broadcaster::new(8);
    let early = b.subscribe();
    b.publish(1);
    let late = b.subscribe();
    assert_eq!(b.receive(late), Received::Empty);
    b.publish(2);
    assert_eq!(b.receive(late), Received::Item(2));
    assert_eq!(b.receive(early), Received::Item(1));
    assert_eq!(b.receive(early), Received::Item(2));
}

#[test]
fn slow_subscriber_loses_oldest_only() {
    let mut b: Broadcaster<u32> = Broadcaster::new(2);
    let slow = b.subscribe();
    let fast = b.subscribe();
    b.publish(1);
    assert_eq!(b.receive(fast), Received::Item(1));
    b.publish(2);
    b.publish(3);
    assert_eq!(b.receive(fast), Received::Item(2));
    b.publish(4);
    assert_eq!(b.receive(slow), Received::Lagged(2));
    assert_eq!(b.receive(slow), Received::Item(3));
    assert_eq!(b.receive(slow), Received::Item(4));
    assert_eq!(b.receive(slow), Received::Empty);
    assert_eq!(b.receive(fast), Received::Item(3));
    assert_eq!(b.receive(fast), Received::Item(4));
}

#[test]
fn subscribers_are_numbered_in_order() {
    let mut b: Broadcaster<String> = Broadcaster::new(4);
    assert_eq!(b.subscriber_count(), 0);
    assert_eq!(b.subscribe(), 0);
    assert_eq!(b.subscribe(), 1);
    assert_eq!(b.subscriber_count(), 2);
    b.publish("x".to_string());
    assert_eq!(b.receive(1), Received::Item("x".to_string()));
}
