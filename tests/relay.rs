use chat_app::message::Message;
use chat_app::registry::RegistryError;
use chat_app::relay::Relay;
use chat_app::session::{Event, Phase, Post, Step};

fn hello(name: &str, channel: usize) -> Event {
    Event::Received(Message::Hello { username: name.to_string(), channel })
}

fn chat(text: &str) -> Event {
    Event::Received(Message::ClientMessage { message: text.to_string() })
}

fn names(relay: &Relay, channel: usize) -> Vec<String> {
    let mut v: Vec<String> = relay.members_snapshot(channel).unwrap().into_iter().map(|m| m.0).collect();
    v.sort();
    v
}

fn joined(relay: &mut Relay, name: &str, channel: usize) -> u64 {
    let conn = relay.open().unwrap();
    let step = relay.handle(conn, hello(name, channel));
    assert_eq!(step.reply, Some(Message::Accepted));
    conn
}

#[test]
fn same_name_same_channel_one_wins() {
    let mut relay = Relay::new(10, 20);
    let a = relay.open().unwrap();
    let b = relay.open().unwrap();
    let first = relay.handle(a, hello("A", 3));
    let second = relay.handle(b, hello("A", 3));
    assert_eq!(
        first,
        Step {
            reply: Some(Message::Accepted),
            post: Some(Post { channel: 3, intent: Message::UserJoined { user: "A".to_string() } }),
            close: false,
        }
    );
    assert_eq!(second, Step { reply: Some(Message::UsernameTaken), post: None, close: false });
    assert_eq!(names(&relay, 3), vec!["A".to_string()]);
    assert_eq!(relay.phase(b), Some(Phase::AwaitingHandshake));
    let retry = relay.handle(b, hello("B", 3));
    assert_eq!(retry.reply, Some(Message::Accepted));
    assert_eq!(names(&relay, 3), vec!["A".to_string(), "B".to_string()]);
}

#[test]
fn same_name_in_other_channel_is_free() {
    let mut relay = Relay::new(10, 20);
    joined(&mut relay, "A", 3);
    joined(&mut relay, "A", 4);
    assert_eq!(names(&relay, 3), vec!["A".to_string()]);
    assert_eq!(names(&relay, 4), vec!["A".to_string()]);
}

#[test]
fn rejoin_after_quit_succeeds() {
    let mut relay = Relay::new(10, 20);
    let a = joined(&mut relay, "A", 2);
    let quit = relay.handle(a, Event::Received(Message::Quit));
    assert_eq!(
        quit,
        Step {
            reply: None,
            post: Some(Post { channel: 2, intent: Message::UserQuit { user: "A".to_string() } }),
            close: true,
        }
    );
    assert!(names(&relay, 2).is_empty());
    assert_eq!(relay.phase(a), None);
    joined(&mut relay, "A", 2);
    assert_eq!(names(&relay, 2), vec!["A".to_string()]);
}

#[test]
fn chat_text_is_posted_once_per_message() {
    let mut relay = Relay::new(10, 20);
    let a = joined(&mut relay, "A", 1);
    joined(&mut relay, "B", 1);
    joined(&mut relay, "C", 1);
    for text in ["hi", "there", "again", "bye"] {
        let step = relay.handle(a, chat(text));
        assert_eq!(
            step,
            Step {
                reply: None,
                post: Some(Post {
                    channel: 1,
                    intent: Message::BroadcastMessage { message: text.to_string(), user: "A".to_string() },
                }),
                close: false,
            }
        );
    }
}

#[test]
fn fan_out_skips_author_and_reaches_each_other_member_once() {
    let mut relay = Relay::new(10, 20);
    let a = joined(&mut relay, "A", 1);
    let b = joined(&mut relay, "B", 1);
    let c = joined(&mut relay, "C", 1);
    joined(&mut relay, "D", 2);
    let intent = Message::BroadcastMessage { message: "hi".to_string(), user: "A".to_string() };
    let mut pass = relay.plan_fan_out(1, &intent, false).unwrap();
    let mut reached: Vec<u64> = Vec::new();
    while let Some(conn) = pass.current() {
        reached.push(conn);
        pass.record(true);
    }
    reached.sort();
    assert_eq!(reached, vec![b, c]);
    assert!(pass.is_done());
    assert!(pass.failed().is_empty());

    let mut echoed = relay.plan_fan_out(1, &intent, true).unwrap();
    let mut all: Vec<u64> = Vec::new();
    while let Some(conn) = echoed.current() {
        all.push(conn);
        echoed.record(true);
    }
    all.sort();
    assert_eq!(all, vec![a, b, c]);
}

#[test]
fn notices_reach_every_member() {
    let mut relay = Relay::new(10, 20);
    let a = joined(&mut relay, "A", 5);
    let b = joined(&mut relay, "B", 5);
    let intent = Message::UserJoined { user: "B".to_string() };
    let mut pass = relay.plan_fan_out(5, &intent, false).unwrap();
    let mut reached: Vec<u64> = Vec::new();
    while let Some(conn) = pass.current() {
        reached.push(conn);
        pass.record(true);
    }
    reached.sort();
    assert_eq!(reached, vec![a, b]);
}

#[test]
fn broken_member_does_not_hold_up_the_rest() {
    let mut relay = Relay::new(10, 20);
    joined(&mut relay, "A", 1);
    joined(&mut relay, "B", 1);
    joined(&mut relay, "C", 1);
    let intent = Message::UserQuit { user: "Z".to_string() };
    let mut pass = relay.plan_fan_out(1, &intent, false).unwrap();
    let first = pass.current().unwrap();
    pass.record(false);
    let mut rest: Vec<u64> = Vec::new();
    while let Some(conn) = pass.current() {
        rest.push(conn);
        pass.record(true);
    }
    assert_eq!(rest.len(), 2);
    assert!(!rest.contains(&first));
    assert_eq!(pass.failed(), &vec![first]);

    let evicted = relay.handle(first, Event::Broken);
    assert!(evicted.close);
    assert!(matches!(evicted.post, Some(Post { channel: 1, intent: Message::UserQuit { .. } })));
    assert_eq!(names(&relay, 1).len(), 2);
    let again = relay.handle(first, Event::Broken);
    assert_eq!(again, Step { reply: None, post: None, close: true });
}

#[test]
fn out_of_range_channel_is_rejected_without_membership() {
    let mut relay = Relay::new(10, 20);
    let conn = relay.open().unwrap();
    let step = relay.handle(conn, hello("A", 999));
    assert_eq!(step, Step { reply: Some(Message::ChatFull), post: None, close: true });
    assert_eq!(relay.phase(conn), None);
    for c in 0..10 {
        assert!(names(&relay, c).is_empty());
    }
    let next = relay.open().unwrap();
    assert_ne!(next, conn);
    assert_eq!(relay.handle(next, hello("A", 9)).reply, Some(Message::Accepted));
}

#[test]
fn channel_equal_to_count_is_out_of_range() {
    let mut relay = Relay::new(10, 20);
    let conn = relay.open().unwrap();
    assert_eq!(relay.handle(conn, hello("A", 10)).reply, Some(Message::ChatFull));
    assert_eq!(relay.members_snapshot(10).unwrap_err(), RegistryError::OutOfRange);
    assert!(relay.plan_fan_out(10, &Message::Quit, false).is_err());
}

#[test]
fn anything_but_hello_closes_a_fresh_connection() {
    let mut relay = Relay::new(10, 20);
    let a = relay.open().unwrap();
    assert_eq!(relay.handle(a, chat("early")), Step { reply: None, post: None, close: true });
    assert_eq!(relay.phase(a), None);
    let b = relay.open().unwrap();
    assert_eq!(relay.handle(b, Event::Broken), Step { reply: None, post: None, close: true });
    for c in 0..10 {
        assert!(names(&relay, c).is_empty());
    }
}

#[test]
fn broken_reader_leaves_and_posts_user_quit() {
    let mut relay = Relay::new(10, 20);
    let a = joined(&mut relay, "A", 0);
    joined(&mut relay, "B", 0);
    let step = relay.handle(a, Event::Broken);
    assert_eq!(
        step,
        Step {
            reply: None,
            post: Some(Post { channel: 0, intent: Message::UserQuit { user: "A".to_string() } }),
            close: true,
        }
    );
    assert_eq!(names(&relay, 0), vec!["B".to_string()]);
}

#[test]
fn unexpected_record_while_joined_closes() {
    let mut relay = Relay::new(10, 20);
    let a = joined(&mut relay, "A", 0);
    joined(&mut relay, "B", 0);
    let step = relay.handle(a, hello("A", 1));
    assert_eq!(step, Step { reply: None, post: None, close: true });
    assert_eq!(names(&relay, 0), vec!["B".to_string()]);
    assert!(names(&relay, 1).is_empty());
    let c = joined(&mut relay, "C", 0);
    let step = relay.handle(c, Event::Received(Message::Accepted));
    assert_eq!(step, Step { reply: None, post: None, close: true });
    assert_eq!(names(&relay, 0), vec!["B".to_string()]);
}

#[test]
fn malformed_record_while_joined_closes_silently() {
    let mut relay = Relay::new(10, 20);
    let a = joined(&mut relay, "A", 4);
    let step = relay.handle(a, Event::Malformed);
    assert_eq!(step, Step { reply: None, post: None, close: true });
    assert!(names(&relay, 4).is_empty());
    assert_eq!(relay.phase(a), None);
}

#[test]
fn malformed_record_during_handshake_closes() {
    let mut relay = Relay::new(10, 20);
    let a = relay.open().unwrap();
    assert_eq!(relay.handle(a, Event::Malformed), Step { reply: None, post: None, close: true });
    assert_eq!(relay.phase(a), None);
}

#[test]
fn members_are_the_joined_connections() {
    let mut relay = Relay::new(3, 20);
    let a = joined(&mut relay, "A", 0);
    let b = joined(&mut relay, "B", 0);
    let c = joined(&mut relay, "C", 2);
    relay.handle(b, Event::Received(Message::Quit));
    let mut zero = relay.members_snapshot(0).unwrap();
    zero.sort();
    assert_eq!(zero, vec![("A".to_string(), a)]);
    assert_eq!(relay.members_snapshot(2).unwrap(), vec![("C".to_string(), c)]);
    assert!(relay.members_snapshot(1).unwrap().is_empty());
    assert_eq!(relay.phase(a), Some(Phase::Joined { username: "A".to_string(), channel: 0 }));
    assert_eq!(relay.phase(b), None);
    assert_eq!(relay.channel_count(), 3);
}

#[test]
fn connection_numbers_are_fresh() {
    let mut relay = Relay::new(1, 0);
    let a = relay.open().unwrap();
    let b = relay.open().unwrap();
    assert_eq!((a, b), (0, 1));
    assert_eq!(relay.phase(a), Some(Phase::AwaitingHandshake));
    assert_eq!(relay.phase(7), None);
}
