use betstream::broadcast::Broadcaster;
use betstream::event::Event;

fn deleted(id: i64) -> Event {
    Event::AccountDeleted { account_id: id }
}

fn deleted_id(e: &Event) -> i64 {
    match e {
        Event::AccountDeleted { account_id } => *account_id,
        _ => panic!("expected a deletion event"),
    }
}

#[test]
fn subscriber_sees_events_in_publish_order() {
    let mut b = Broadcaster::new(10);
    let s = b.subscribe();
    b.publish(deleted(1));
    b.publish(deleted(2));
    b.publish(deleted(3));
    let e1 = b.recv(s).expect("first envelope");
    let e2 = b.recv(s).expect("second envelope");
    let e3 = b.recv(s).expect("third envelope");
    assert_eq!(deleted_id(&e1.event), 1);
    assert_eq!(deleted_id(&e2.event), 2);
    assert_eq!(deleted_id(&e3.event), 3);
    assert!(e1.seq < e2.seq && e2.seq < e3.seq);
    assert!(b.recv(s).is_none());
}

#[test]
fn all_subscribers_see_the_same_order() {
    let mut b = Broadcaster::new(10);
    let s1 = b.subscribe();
    let s2 = b.subscribe();
    b.publish(deleted(7));
    b.publish(deleted(8));
    let a1 = b.recv(s1).expect("envelope");
    let a2 = b.recv(s1).expect("envelope");
    let c1 = b.recv(s2).expect("envelope");
    let c2 = b.recv(s2).expect("envelope");
    assert_eq!(deleted_id(&a1.event), deleted_id(&c1.event));
    assert_eq!(deleted_id(&a2.event), deleted_id(&c2.event));
    assert_eq!(a1.seq, c1.seq);
    assert_eq!(a2.seq, c2.seq);
}

#[test]
fn late_subscriber_gets_no_replay() {
    let mut b = Broadcaster::new(10);
    b.publish(deleted(1));
    b.publish(deleted(2));
    let s = b.subscribe();
    assert!(b.recv(s).is_none());
    b.publish(deleted(3));
    let e = b.recv(s).expect("only the later envelope");
    assert_eq!(deleted_id(&e.event), 3);
    assert!(b.recv(s).is_none());
}

#[test]
fn full_queue_drops_the_oldest() {
    let mut b = Broadcaster::new(3);
    let s = b.subscribe();
    b.publish(deleted(1));
    b.publish(deleted(2));
    b.publish(deleted(3));
    b.publish(deleted(4));
    let e1 = b.recv(s).expect("envelope");
    let e2 = b.recv(s).expect("envelope");
    let e3 = b.recv(s).expect("envelope");
    assert_eq!(deleted_id(&e1.event), 2);
    assert_eq!(deleted_id(&e2.event), 3);
    assert_eq!(deleted_id(&e3.event), 4);
    assert!(b.recv(s).is_none());
}

#[test]
fn publish_without_subscribers_is_harmless() {
    let mut b = Broadcaster::new(10);
    b.publish(deleted(1));
    assert_eq!(b.subs.len(), 0);
    assert_eq!(b.next_seq, 2);
    let s = b.subscribe();
    assert!(b.recv(s).is_none());
}

#[test]
fn unsubscribe_removes_from_registry_and_is_idempotent() {
    let mut b = Broadcaster::new(10);
    let s1 = b.subscribe();
    let s2 = b.subscribe();
    assert_eq!(b.subs.len(), 2);
    b.unsubscribe(s1);
    assert_eq!(b.subs.len(), 1);
    b.unsubscribe(s1);
    assert_eq!(b.subs.len(), 1);
    b.publish(deleted(5));
    let e = b.recv(s2).expect("the remaining subscriber still receives");
    assert_eq!(deleted_id(&e.event), 5);
    assert!(b.recv(s1).is_none());
    b.unsubscribe(s2);
    assert_eq!(b.subs.len(), 0);
}

#[test]
fn recv_on_unknown_handle_yields_nothing() {
    let mut b = Broadcaster::new(4);
    b.publish(deleted(1));
    assert!(b.recv(42).is_none());
}
