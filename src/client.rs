use crate::message::{Message, MessageView};
use vstd::prelude::*;
use vstd::string::StringExecFns;

verus! {

/// A character with Unicode's `White_Space` property.
pub open spec fn is_white_space(c: char) -> bool {
    ('\u{9}' <= c <= '\u{d}') || c == ' ' || c == '\u{85}' || c == '\u{a0}' || c == '\u{1680}'
        || ('\u{2000}' <= c <= '\u{200a}') || c == '\u{2028}' || c == '\u{2029}' || c
        == '\u{202f}' || c == '\u{205f}' || c == '\u{3000}'
}

/// `s` without its leading white space.
pub open spec fn trim_start(s: Seq<char>) -> Seq<char>
    decreases s.len(),
{
    if s.len() > 0 && is_white_space(s[0]) {
        trim_start(s.drop_first())
    } else {
        s
    }
}

/// `s` without its trailing white space.
pub open spec fn trim_end(s: Seq<char>) -> Seq<char>
    decreases s.len(),
{
    if s.len() > 0 && is_white_space(s.last()) {
        trim_end(s.drop_last())
    } else {
        s
    }
}

/// `s` without its leading and trailing white space.
pub open spec fn trimmed(s: Seq<char>) -> Seq<char> {
    trim_end(trim_start(s))
}

/// Relies on `str::trim`: it removes the leading and trailing characters that
/// have the `White_Space` property.
#[verifier::external_body]
fn trim(s: &String) -> (r: String)
    ensures
        r@ == trimmed(s@),
{
    s.trim().to_string()
}

/// A decimal digit.
pub open spec fn is_digit(c: char) -> bool {
    '0' <= c <= '9'
}

/// The digits of a number's text, without the `+` sign it may start with.
pub open spec fn unsigned_digits(s: Seq<char>) -> Seq<char> {
    if s.len() > 0 && s[0] == '+' {
        s.drop_first()
    } else {
        s
    }
}

/// Whether `s` is the text of a natural number: an optional `+`, then one or
/// more decimal digits.
pub open spec fn is_number_text(s: Seq<char>) -> bool {
    let d = unsigned_digits(s);
    d.len() > 0 && forall|i: int| 0 <= i < d.len() ==> is_digit(#[trigger] d[i])
}

/// The value of a string of decimal digits.
pub open spec fn digits_value(d: Seq<char>) -> int
    decreases d.len(),
{
    if d.len() == 0 {
        0
    } else {
        digits_value(d.drop_last()) * 10 + (d.last() as int - '0' as int)
    }
}

proof fn lemma_digits_value_nonnegative(d: Seq<char>)
    requires
        forall|i: int| 0 <= i < d.len() ==> is_digit(#[trigger] d[i]),
    ensures
        digits_value(d) >= 0,
    decreases d.len(),
{
    if d.len() > 0 {
        assert(is_digit(d[d.len() - 1]));
        lemma_digits_value_nonnegative(d.drop_last());
    }
}

/// Relies on `usize::from_str`: an optional `+` followed by decimal digits whose
/// value fits, and nothing else, parses to that value.
#[verifier::external_body]
fn parse_usize(s: &String) -> (r: Option<usize>)
    ensures
        r == (if is_number_text(s@) && digits_value(unsigned_digits(s@)) <= usize::MAX {
            Some(digits_value(unsigned_digits(s@)) as usize)
        } else {
            None::<usize>
        }),
{
    s.parse::<usize>().ok()
}

/// The line a user types to leave the chat.
pub open spec fn quit_line() -> Seq<char> {
    seq!['/', 'q', 'u', 'i', 't', '\n']
}

/// The record a typed line becomes: `Quit` for the quit line, otherwise chat
/// text with the surrounding whitespace removed.
pub fn command_of(input: &String) -> (r: Message)
    ensures
        input@ == quit_line() ==> r@ == MessageView::Quit,
        input@ != quit_line() ==> r@ == (MessageView::ClientMessage { message: trimmed(input@) }),
{
    let quit = String::from_str("/quit\n");
    proof {
        reveal_strlit("/quit\n");
        assert(quit@ =~= quit_line());
    }
    if input.eq(&quit) {
        Message::Quit
    } else {
        Message::ClientMessage { message: trim(input) }
    }
}

/// The channel named by already trimmed text, when it is a number below `count`.
pub fn channel_of_text(text: &String, count: usize) -> (r: Option<usize>)
    ensures
        r is Some <==> is_number_text(text@) && digits_value(unsigned_digits(text@)) < count,
        r matches Some(n) ==> n as int == digits_value(unsigned_digits(text@)),
{
    proof {
        if is_number_text(text@) {
            lemma_digits_value_nonnegative(unsigned_digits(text@));
        }
    }
    match parse_usize(text) {
        Some(n) => if n < count {
            Some(n)
        } else {
            None
        },
        None => None,
    }
}

/// The channel a typed line names, when it is a number below `count` once the
/// surrounding whitespace is removed.
pub fn channel_choice(input: &String, count: usize) -> (r: Option<usize>)
    ensures
        r is Some <==> is_number_text(trimmed(input@)) && digits_value(
            unsigned_digits(trimmed(input@)),
        ) < count,
        r matches Some(n) ==> n as int == digits_value(unsigned_digits(trimmed(input@))),
{
    let text = trim(input);
    channel_of_text(&text, count)
}

/// The `Hello` for a typed username line and a chosen channel; the name is
/// taken without its surrounding whitespace.
pub fn hello_of(name_line: &String, channel: usize) -> (r: Message)
    ensures
        r@ == (MessageView::Hello { username: trimmed(name_line@), channel: channel as nat }),
{
    Message::Hello { username: trim(name_line), channel }
}

/// How the relay answered a client's `Hello`.
#[derive(Debug, Clone, Copy, PartialEq, Eq, Structural)]
pub enum HandshakeReply {
    /// Joined: the client may chat.
    Welcome,
    /// The username is taken in that channel: ask for another.
    NameTaken,
    /// The channel was refused: ask again.
    Full,
    /// Not an answer to a `Hello`.
    Unexpected,
}

/// Classifies the relay's answer to a `Hello`.
pub fn classify_reply(reply: &Message) -> (r: HandshakeReply)
    ensures
        r == (match reply@ {
            MessageView::Accepted => HandshakeReply::Welcome,
            MessageView::UsernameTaken => HandshakeReply::NameTaken,
            MessageView::ChatFull => HandshakeReply::Full,
            _ => HandshakeReply::Unexpected,
        }),
{
    match reply {
        Message::Accepted => HandshakeReply::Welcome,
        Message::UsernameTaken => HandshakeReply::NameTaken,
        Message::ChatFull => HandshakeReply::Full,
        _ => HandshakeReply::Unexpected,
    }
}

/// The line shown for a notice from the relay: chat text as `user : text`, a
/// join as `User name joined!`; nothing for other records.
pub fn notice_text(m: &Message) -> (r: Option<String>)
    ensures
        m@ matches MessageView::BroadcastMessage { message, user } ==> (r matches Some(t) && t@
            == user + seq![' ', ':', ' '] + message),
        m@ matches MessageView::UserJoined { user } ==> (r matches Some(t) && t@ == seq![
            'U',
            's',
            'e',
            'r',
            ' ',
        ] + user + seq![' ', 'j', 'o', 'i', 'n', 'e', 'd', '!']),
        !(m@ is BroadcastMessage || m@ is UserJoined) ==> r is None,
{
    proof {
        reveal_strlit(" : ");
        reveal_strlit("User ");
        reveal_strlit(" joined!");
    }
    match m {
        Message::BroadcastMessage { message, user } => {
            let mut t = user.clone();
            t.append(" : ");
            t.append(message.as_str());
            Some(t)
        },
        Message::UserJoined { user } => {
            let mut t = String::from_str("User ");
            t.append(user.as_str());
            t.append(" joined!");
            Some(t)
        },
        _ => None,
    }
}

} // verus!
