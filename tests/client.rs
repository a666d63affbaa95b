use chat_app::client::{
    channel_choice, channel_of_text, classify_reply, command_of, hello_of, notice_text, HandshakeReply,
};
use chat_app::message::Message;

#[test]
fn quit_line_becomes_quit() {
    assert_eq!(command_of(&"/quit\n".to_string()), Message::Quit);
}

#[test]
fn other_lines_become_trimmed_chat_text() {
    assert_eq!(command_of(&"  hello there \n".to_string()), Message::ClientMessage { message: "hello there".to_string() });
    assert_eq!(command_of(&"/quit".to_string()), Message::ClientMessage { message: "/quit".to_string() });
    assert_eq!(command_of(&"/quit \n".to_string()), Message::ClientMessage { message: "/quit".to_string() });
}

#[test]
fn channel_choice_accepts_numbers_below_count() {
    assert_eq!(channel_choice(&" 3\n".to_string(), 10), Some(3));
    assert_eq!(channel_choice(&"0\n".to_string(), 10), Some(0));
    assert_eq!(channel_choice(&"+9\n".to_string(), 10), Some(9));
    assert_eq!(channel_choice(&"10\n".to_string(), 10), None);
    assert_eq!(channel_choice(&"-1\n".to_string(), 10), None);
    assert_eq!(channel_choice(&"three\n".to_string(), 10), None);
    assert_eq!(channel_choice(&"\n".to_string(), 10), None);
    assert_eq!(channel_choice(&"99999999999999999999999\n".to_string(), 10), None);
}

#[test]
fn channel_of_text_does_not_trim() {
    assert_eq!(channel_of_text(&"4".to_string(), 10), Some(4));
    assert_eq!(channel_of_text(&" 4".to_string(), 10), None);
}

#[test]
fn replies_are_classified() {
    assert_eq!(classify_reply(&Message::Accepted), HandshakeReply::Welcome);
    assert_eq!(classify_reply(&Message::UsernameTaken), HandshakeReply::NameTaken);
    assert_eq!(classify_reply(&Message::ChatFull), HandshakeReply::Full);
    assert_eq!(classify_reply(&Message::Quit), HandshakeReply::Unexpected);
}

#[test]
fn notices_are_shown() {
    let chat = Message::BroadcastMessage { message: "hi".to_string(), user: "A".to_string() };
    assert_eq!(notice_text(&chat), Some("A : hi".to_string()));
    let join = Message::UserJoined { user: "B".to_string() };
    assert_eq!(notice_text(&join), Some("User B joined!".to_string()));
    assert_eq!(notice_text(&Message::UserQuit { user: "B".to_string() }), None);
}

#[test]
fn hello_takes_the_trimmed_name() {
    assert_eq!(hello_of(&" Ann \n".to_string(), 3), Message::Hello { username: "Ann".to_string(), channel: 3 });
}
