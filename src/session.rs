use crate::message::{Message, MessageView};
use vstd::prelude::*;

verus! {

/// Where a live connection stands. A closed connection has no phase: the
/// relay forgets it.
#[derive(Debug, PartialEq, Eq)]
pub enum Phase {
    /// Connected; waiting for a `Hello` that names a free username and a channel.
    AwaitingHandshake,
    /// Registered under `username` in channel `channel`.
    Joined { username: String, channel: usize },
}

/// The value of a `Phase`.
pub ghost enum PhaseView {
    AwaitingHandshake,
    Joined { username: Seq<char>, channel: nat },
}

impl View for Phase {
    type V = PhaseView;

    open spec fn view(&self) -> PhaseView {
        match self {
            Phase::AwaitingHandshake => PhaseView::AwaitingHandshake,
            Phase::Joined { username, channel } => PhaseView::Joined {
                username: username@,
                channel: *channel as nat,
            },
        }
    }
}

impl Phase {
    /// A copy of this phase.
    pub fn duplicate(&self) -> (r: Phase)
        ensures
            r@ == self@,
    {
        match self {
            Phase::AwaitingHandshake => Phase::AwaitingHandshake,
            Phase::Joined { username, channel } => Phase::Joined {
                username: username.clone(),
                channel: *channel,
            },
        }
    }
}

/// What a connection's reader observed.
#[derive(Debug, PartialEq, Eq)]
pub enum Event {
    /// One decoded record.
    Received(Message),
    /// A record that did not decode: a protocol violation.
    Malformed,
    /// End of stream or a read error.
    Broken,
}

/// The value of an `Event`.
pub ghost enum EventView {
    Received(MessageView),
    Malformed,
    Broken,
}

impl View for Event {
    type V = EventView;

    open spec fn view(&self) -> EventView {
        match self {
            Event::Received(m) => EventView::Received(m@),
            Event::Malformed => EventView::Malformed,
            Event::Broken => EventView::Broken,
        }
    }
}

/// A notice to append to the mailbox of channel `channel`.
#[derive(Debug, PartialEq, Eq)]
pub struct Post {
    pub channel: usize,
    pub intent: Message,
}

/// The value of a `Post`.
pub ghost struct PostView {
    pub channel: nat,
    pub intent: MessageView,
}

impl View for Post {
    type V = PostView;

    open spec fn view(&self) -> PostView {
        PostView { channel: self.channel as nat, intent: self.intent@ }
    }
}

/// What the caller does after an event: send `reply` to the connection, append
/// `post` to a channel's mailbox, then close the connection if `close` is set.
#[derive(Debug, PartialEq, Eq)]
pub struct Step {
    pub reply: Option<Message>,
    pub post: Option<Post>,
    pub close: bool,
}

/// The value of a `Step`.
pub ghost struct StepView {
    pub reply: Option<MessageView>,
    pub post: Option<PostView>,
    pub close: bool,
}

impl View for Step {
    type V = StepView;

    open spec fn view(&self) -> StepView {
        StepView {
            reply: match self.reply {
                Some(m) => Some(m@),
                None => None,
            },
            post: match self.post {
                Some(p) => Some(p@),
                None => None,
            },
            close: self.close,
        }
    }
}

} // verus!
