use std::collections::BTreeMap;
use vstd::prelude::*;

verus! {

/// A framed record exchanged between a client and the relay.
#[derive(Debug, Clone, PartialEq, Eq)]
pub enum Message {
    ClientMessage { message: String },
    Hello { username: String, channel: usize },
    History { messages: BTreeMap<String, String> },
    Quit,
    UserQuit { user: String },
    SwitchChannel { new_channel: usize },
    UsernameTaken,
    Accepted,
    ChatFull,
    BroadcastMessage { message: String, user: String },
    UserJoined { user: String },
}

/// The mathematical value of a `Message`: strings as character sequences.
pub ghost enum MessageView {
    ClientMessage { message: Seq<char> },
    Hello { username: Seq<char>, channel: nat },
    History { messages: Map<Seq<char>, Seq<char>> },
    Quit,
    UserQuit { user: Seq<char> },
    SwitchChannel { new_channel: nat },
    UsernameTaken,
    Accepted,
    ChatFull,
    BroadcastMessage { message: Seq<char>, user: Seq<char> },
    UserJoined { user: Seq<char> },
}

impl View for Message {
    type V = MessageView;

    open spec fn view(&self) -> MessageView {
        match self {
            Message::ClientMessage { message } => MessageView::ClientMessage { message: message@ },
            Message::Hello { username, channel } => MessageView::Hello {
                username: username@,
                channel: *channel as nat,
            },
            Message::History { messages } => MessageView::History {
                messages: messages.deep_view(),
            },
            Message::Quit => MessageView::Quit,
            Message::UserQuit { user } => MessageView::UserQuit { user: user@ },
            Message::SwitchChannel { new_channel } => MessageView::SwitchChannel {
                new_channel: *new_channel as nat,
            },
            Message::UsernameTaken => MessageView::UsernameTaken,
            Message::Accepted => MessageView::Accepted,
            Message::ChatFull => MessageView::ChatFull,
            Message::BroadcastMessage { message, user } => MessageView::BroadcastMessage {
                message: message@,
                user: user@,
            },
            Message::UserJoined { user } => MessageView::UserJoined { user: user@ },
        }
    }
}

} // verus!
