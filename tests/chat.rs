use chat_relay::hub::Hub;
use chat_relay::registry::Registry;
use chat_relay::session::{Chat, Frame, Handshake, Session, HUB_CAPACITY};

fn s(text: &str) -> String {
    text.to_string()
}

fn drain(session: &Session, chat: &mut Chat) -> Vec<String> {
    let mut out = Vec::new();
    while let Some(m) = session.next_outbound(chat) {
        out.push(m);
    }
    out
}

fn join(chat: &mut Chat, name: &str) -> Session {
    let mut session = Session::new();
    let r = session.handshake(chat, Frame::Text(s(name)));
    assert!(matches!(r, Handshake::Joined));
    session
}

#[test]
fn claim_is_exclusive() {
    let mut reg = Registry::new();
    assert!(reg.try_claim(s("alice")));
    assert!(!reg.try_claim(s("alice")));
    assert!(!reg.try_claim(s("alice")));
    assert!(reg.contains(&s("alice")));
    assert!(reg.try_claim(s("bob")));
}

#[test]
fn claim_after_release_succeeds() {
    let mut reg = Registry::new();
    assert!(reg.try_claim(s("alice")));
    reg.release(&s("alice"));
    assert!(!reg.contains(&s("alice")));
    assert!(reg.try_claim(s("alice")));
}

#[test]
fn release_of_unknown_name_is_noop() {
    let mut reg = Registry::new();
    assert!(reg.try_claim(s("alice")));
    reg.release(&s(""));
    reg.release(&s("bob"));
    assert!(reg.contains(&s("alice")));
}

#[test]
fn late_subscriber_gets_no_replay() {
    let mut hub = Hub::new(4);
    hub.publish(s("early"));
    let id = hub.subscribe();
    assert_eq!(hub.take_next(id), None);
    hub.publish(s("late"));
    assert_eq!(hub.take_next(id), Some(s("late")));
    assert_eq!(hub.take_next(id), None);
}

#[test]
fn subscribers_share_one_order() {
    let mut hub = Hub::new(8);
    let a = hub.subscribe();
    let b = hub.subscribe();
    for m in ["x", "y", "z"] {
        hub.publish(s(m));
    }
    let mut got_a = Vec::new();
    let mut got_b = Vec::new();
    while let Some(m) = hub.take_next(a) {
        got_a.push(m);
    }
    while let Some(m) = hub.take_next(b) {
        got_b.push(m);
    }
    assert_eq!(got_a, vec![s("x"), s("y"), s("z")]);
    assert_eq!(got_a, got_b);
}

#[test]
fn stalled_subscriber_loses_oldest_only() {
    let mut hub = Hub::new(2);
    let stalled = hub.subscribe();
    let reader = hub.subscribe();
    let mut read = Vec::new();
    for m in ["m0", "m1", "m2", "m3", "m4"] {
        hub.publish(s(m));
        while let Some(x) = hub.take_next(reader) {
            read.push(x);
        }
    }
    assert_eq!(read, vec![s("m0"), s("m1"), s("m2"), s("m3"), s("m4")]);
    assert_eq!(hub.take_next(stalled), Some(s("m3")));
    assert_eq!(hub.take_next(stalled), Some(s("m4")));
    assert_eq!(hub.take_next(stalled), None);
}

#[test]
fn unsubscribed_slot_is_reused_empty() {
    let mut hub = Hub::new(3);
    let a = hub.subscribe();
    hub.publish(s("one"));
    hub.unsubscribe(a);
    assert_eq!(hub.take_next(a), None);
    hub.unsubscribe(99);
    let b = hub.subscribe();
    assert_eq!(b, a);
    assert_eq!(hub.take_next(b), None);
}

#[test]
fn join_is_announced_to_everyone() {
    let mut chat = Chat::new(HUB_CAPACITY);
    let bob = join(&mut chat, "bob");
    assert_eq!(drain(&bob, &mut chat), vec![s("bob has joined.")]);
    let alice = join(&mut chat, "alice");
    assert_eq!(drain(&bob, &mut chat), vec![s("alice has joined.")]);
    assert_eq!(drain(&alice, &mut chat), vec![s("alice has joined.")]);
    assert!(chat.registry.contains(&s("alice")));
}

#[test]
fn taken_name_is_rejected() {
    let mut chat = Chat::new(HUB_CAPACITY);
    let alice = join(&mut chat, "alice");
    drain(&alice, &mut chat);
    let mut b = Session::new();
    match b.handshake(&mut chat, Frame::Text(s("alice"))) {
        Handshake::Rejected(notice) => assert_eq!(notice, "Username `alice` is already taken"),
        _ => panic!("expected a rejection"),
    }
    assert!(matches!(b, Session::Closed));
    assert!(chat.registry.contains(&s("alice")));
    assert!(drain(&alice, &mut chat).is_empty());
}

#[test]
fn text_is_relayed_with_name() {
    let mut chat = Chat::new(HUB_CAPACITY);
    let alice = join(&mut chat, "alice");
    let bob = join(&mut chat, "bob");
    drain(&alice, &mut chat);
    drain(&bob, &mut chat);
    assert!(alice.relay(&mut chat, Frame::Text(s("hi"))));
    assert_eq!(drain(&alice, &mut chat), vec![s("alice: hi")]);
    assert_eq!(drain(&bob, &mut chat), vec![s("alice: hi")]);
}

#[test]
fn non_text_frames_are_ignored() {
    let mut chat = Chat::new(HUB_CAPACITY);
    let mut alice = Session::new();
    assert!(matches!(alice.handshake(&mut chat, Frame::Other), Handshake::Waiting));
    assert!(matches!(alice, Session::Handshaking));
    assert!(matches!(alice.handshake(&mut chat, Frame::Text(s("alice"))), Handshake::Joined));
    drain(&alice, &mut chat);
    assert!(alice.relay(&mut chat, Frame::Other));
    assert!(drain(&alice, &mut chat).is_empty());
}

#[test]
fn drop_announces_leave_and_frees_name() {
    let mut chat = Chat::new(HUB_CAPACITY);
    let mut alice = join(&mut chat, "alice");
    let bob = join(&mut chat, "bob");
    drain(&bob, &mut chat);
    assert!(!alice.relay(&mut chat, Frame::Closed));
    alice.finish(&mut chat);
    assert!(matches!(alice, Session::Closed));
    assert_eq!(drain(&bob, &mut chat), vec![s("alice left")]);
    assert!(!chat.registry.contains(&s("alice")));
    let again = join(&mut chat, "alice");
    assert_eq!(drain(&again, &mut chat), vec![s("alice has joined.")]);
}

#[test]
fn finishing_twice_leaves_once() {
    let mut chat = Chat::new(HUB_CAPACITY);
    let mut alice = join(&mut chat, "alice");
    let bob = join(&mut chat, "bob");
    drain(&bob, &mut chat);
    alice.finish(&mut chat);
    alice.finish(&mut chat);
    assert_eq!(drain(&bob, &mut chat), vec![s("alice left")]);
    assert!(!alice.relay(&mut chat, Frame::Text(s("late"))));
    assert!(drain(&bob, &mut chat).is_empty());
}

#[test]
fn close_before_name_claims_nothing() {
    let mut chat = Chat::new(HUB_CAPACITY);
    let bob = join(&mut chat, "bob");
    drain(&bob, &mut chat);
    let mut quiet = Session::new();
    assert!(matches!(quiet.handshake(&mut chat, Frame::Closed), Handshake::Closed));
    quiet.finish(&mut chat);
    assert!(drain(&bob, &mut chat).is_empty());
    assert!(!chat.registry.contains(&s("")));
}

#[test]
fn empty_name_is_accepted() {
    let mut chat = Chat::new(HUB_CAPACITY);
    let anon = join(&mut chat, "");
    assert_eq!(drain(&anon, &mut chat), vec![s(" has joined.")]);
}
