use crate::fanout::{
    distinct_names, entries_view, lemma_recipients_exactly_once, receives, recipients_of, FanOut,
};
use crate::members::MAX_CAPACITY_HINT;
use crate::message::{Message, MessageView};
use crate::registry::{ChannelRegistry, RegistryError};
use crate::session::{Event, EventView, Phase, PhaseView, Post, PostView, Step, StepView};
use std::collections::HashMap;
use vstd::prelude::*;

verus! {

/// The relay's state: every channel's members and every live connection's phase.
pub ghost struct RelayView {
    pub channels: Seq<Map<Seq<char>, u64>>,
    pub sessions: Map<u64, PhaseView>,
    pub next_conn: nat,
}

/// Connection `conn` is joined to channel `c` under `name`.
pub open spec fn joined_as(v: RelayView, conn: u64, name: Seq<char>, c: int) -> bool {
    v.sessions.contains_key(conn) && v.sessions[conn] == (PhaseView::Joined {
        username: name,
        channel: c as nat,
    })
}

/// The usernames of the connections joined to channel `c`.
pub open spec fn joined_names(v: RelayView, c: int) -> Set<Seq<char>> {
    Set::new(|name: Seq<char>| exists|conn: u64| joined_as(v, conn, name, c))
}

/// Every channel's members are exactly the connections joined to it: each member
/// entry names a connection joined under that name, and each joined connection
/// is the member entry under its name in its channel.
pub open spec fn consistent(v: RelayView) -> bool {
    &&& forall|conn: u64| #[trigger] v.sessions.contains_key(conn) ==> conn < v.next_conn
    &&& forall|conn: u64|
        #[trigger] v.sessions.contains_key(conn) && v.sessions[conn] is Joined ==> {
            let c = v.sessions[conn]->Joined_channel as int;
            let name = v.sessions[conn]->Joined_username;
            &&& c < v.channels.len()
            &&& v.channels[c].contains_key(name)
            &&& v.channels[c][name] == conn
        }
    &&& forall|c: int, name: Seq<char>|
        0 <= c < v.channels.len() && #[trigger] v.channels[c].contains_key(name) ==> joined_as(
            v,
            v.channels[c][name],
            name,
            c,
        )
}

/// `targets` lists each member of `members` that receives `intent` exactly
/// once, with the connection it is registered under, and nobody else.
pub open spec fn covers(
    targets: Seq<(Seq<char>, u64)>,
    members: Map<Seq<char>, u64>,
    intent: MessageView,
    echo: bool,
) -> bool {
    &&& distinct_names(targets)
    &&& forall|i: int|
        0 <= i < targets.len() ==> members.contains_key(#[trigger] targets[i].0)
            && members[targets[i].0] == targets[i].1 && receives(intent, targets[i].0, echo)
    &&& forall|name: Seq<char>|
        #[trigger] members.contains_key(name) && receives(intent, name, echo) ==> exists|i: int|
            0 <= i < targets.len() && targets[i].0 == name
}

/// The state with connection `conn` forgotten.
pub open spec fn without(v: RelayView, conn: u64) -> RelayView {
    RelayView { channels: v.channels, sessions: v.sessions.remove(conn), next_conn: v.next_conn }
}

/// The state after joined connection `conn` closes: its member entry and its
/// session are gone.
pub open spec fn departed(v: RelayView, conn: u64, username: Seq<char>, channel: nat) -> RelayView {
    RelayView {
        channels: v.channels.update(channel as int, v.channels[channel as int].remove(username)),
        sessions: v.sessions.remove(conn),
        next_conn: v.next_conn,
    }
}

/// A step from its three parts.
pub open spec fn step_of(
    reply: Option<MessageView>,
    post: Option<PostView>,
    close: bool,
) -> StepView {
    StepView { reply, post, close }
}

/// What the relay does when connection `conn` reports `e`, as the next state
/// and the step handed back.
/// - Awaiting its handshake: a `Hello` for a channel that does not exist is
///   answered `ChatFull` and the connection closes; one for a name taken in
///   that channel is answered `UsernameTaken` and the connection may try again;
///   any other `Hello` joins the name to the channel, is answered `Accepted`,
///   and posts `UserJoined`. Anything else closes the connection unanswered.
/// - Joined: chat text is posted as a `BroadcastMessage` from its username.
///   A `Quit` or a broken reader removes the member, posts `UserQuit` and
///   closes the connection. A protocol violation (a record that did not
///   decode, or any other record) removes the member and closes the
///   connection without posting anything.
/// - Unknown or closed: nothing changes, and the caller is asked to close.
pub open spec fn transition(v: RelayView, conn: u64, e: EventView) -> (RelayView, StepView) {
    if !v.sessions.contains_key(conn) {
        (v, step_of(None, None, true))
    } else {
        match v.sessions[conn] {
            PhaseView::AwaitingHandshake => match e {
                EventView::Received(MessageView::Hello { username, channel }) => {
                    if channel >= v.channels.len() {
                        (without(v, conn), step_of(Some(MessageView::ChatFull), None, true))
                    } else if v.channels[channel as int].contains_key(username) {
                        (v, step_of(Some(MessageView::UsernameTaken), None, false))
                    } else {
                        (
                            RelayView {
                                channels: v.channels.update(
                                    channel as int,
                                    v.channels[channel as int].insert(username, conn),
                                ),
                                sessions: v.sessions.insert(
                                    conn,
                                    PhaseView::Joined { username, channel },
                                ),
                                next_conn: v.next_conn,
                            },
                            step_of(
                                Some(MessageView::Accepted),
                                Some(
                                    PostView {
                                        channel,
                                        intent: MessageView::UserJoined { user: username },
                                    },
                                ),
                                false,
                            ),
                        )
                    }
                },
                _ => (without(v, conn), step_of(None, None, true)),
            },
            PhaseView::Joined { username, channel } => match e {
                EventView::Received(MessageView::ClientMessage { message }) => (
                    v,
                    step_of(
                        None,
                        Some(
                            PostView {
                                channel,
                                intent: MessageView::BroadcastMessage { message, user: username },
                            },
                        ),
                        false,
                    ),
                ),
                EventView::Received(MessageView::Quit) => (
                    departed(v, conn, username, channel),
                    step_of(
                        None,
                        Some(PostView { channel, intent: MessageView::UserQuit { user: username } }),
                        true,
                    ),
                ),
                EventView::Broken => (
                    departed(v, conn, username, channel),
                    step_of(
                        None,
                        Some(PostView { channel, intent: MessageView::UserQuit { user: username } }),
                        true,
                    ),
                ),
                _ => (departed(v, conn, username, channel), step_of(None, None, true)),
            },
        }
    }
}

/// The registry together with the phase of every live connection. Connection
/// numbers are handed out in increasing order and never reused.
pub struct Relay {
    registry: ChannelRegistry,
    sessions: HashMap<u64, Phase>,
    next_conn: u64,
}

impl View for Relay {
    type V = RelayView;

    closed spec fn view(&self) -> RelayView {
        RelayView {
            channels: self.registry@,
            sessions: self.sessions@.map_values(|p: Phase| p@),
            next_conn: self.next_conn as nat,
        }
    }
}

impl Relay {
    /// The relay's invariant: its members and sessions agree (`consistent`).
    pub open spec fn wf(&self) -> bool {
        consistent(self@)
    }

    /// A relay with `count` empty channels and no connections.
    pub fn new(count: usize, capacity: usize) -> (r: Relay)
        requires
            capacity <= MAX_CAPACITY_HINT,
        ensures
            r.wf(),
            r@.channels.len() == count,
            forall|c: int|
                0 <= c < count ==> (#[trigger] r@.channels[c]).dom() == Set::<Seq<char>>::empty(),
            r@.sessions.dom() == Set::<u64>::empty(),
            r@.next_conn == 0,
    {
        let r = Relay {
            registry: ChannelRegistry::new(count, capacity),
            sessions: HashMap::new(),
            next_conn: 0,
        };
        proof {
            assert(r@.sessions =~= Map::<u64, PhaseView>::empty());
        }
        r
    }

    /// The number of channels.
    pub fn channel_count(&self) -> (r: usize)
        ensures
            r == self@.channels.len(),
    {
        self.registry.len()
    }

    /// Registers a new connection awaiting its handshake and returns its
    /// number, or `None` once every number has been handed out.
    pub fn open(&mut self) -> (r: Option<u64>)
        requires
            old(self).wf(),
        ensures
            final(self).wf(),
            old(self)@.next_conn < u64::MAX ==> r == Some(old(self)@.next_conn as u64)
                && final(self)@ == (RelayView {
                channels: old(self)@.channels,
                sessions: old(self)@.sessions.insert(
                    old(self)@.next_conn as u64,
                    PhaseView::AwaitingHandshake,
                ),
                next_conn: old(self)@.next_conn + 1,
            }),
            old(self)@.next_conn >= u64::MAX ==> r is None && final(self)@ == old(self)@,
    {
        broadcast use vstd::std_specs::hash::group_hash_axioms;

        if self.next_conn == u64::MAX {
            return None;
        }
        let conn = self.next_conn;
        self.sessions.insert(conn, Phase::AwaitingHandshake);
        self.next_conn = conn + 1;
        proof {
            let v0 = old(self)@;
            let v1 = self@;
            assert(v1.sessions =~= v0.sessions.insert(conn, PhaseView::AwaitingHandshake));
            assert forall|c: int, name: Seq<char>|
                0 <= c < v1.channels.len() && #[trigger] v1.channels[c].contains_key(
                    name,
                ) implies joined_as(v1, v1.channels[c][name], name, c) by {
                assert(joined_as(v0, v0.channels[c][name], name, c));
                assert(v0.channels[c][name] != conn);
            }
        }
        Some(conn)
    }

    /// Applies event `event` of connection `conn`: the handshake while it awaits
    /// one, relaying while it is joined. An event of an unknown or closed
    /// connection changes nothing and only asks the caller to close it.
    pub fn handle(&mut self, conn: u64, event: Event) -> (r: Step)
        requires
            old(self).wf(),
        ensures
            final(self).wf(),
            (final(self)@, r@) == transition(old(self)@, conn, event@),
    {
        broadcast use vstd::std_specs::hash::group_hash_axioms;

        let phase = match self.sessions.get(&conn) {
            None => {
                return Step { reply: None, post: None, close: true };
            },
            Some(p) => p.duplicate(),
        };
        proof {
            assert(phase@ == old(self)@.sessions[conn]);
        }
        match phase {
            Phase::AwaitingHandshake => self.on_handshake(conn, event),
            Phase::Joined { username, channel } => self.on_joined(conn, username, channel, event),
        }
    }

    /// The phase of connection `conn`, or `None` when it is closed or unknown.
    pub fn phase(&self, conn: u64) -> (r: Option<Phase>)
        ensures
            self@.sessions.contains_key(conn) ==> (r matches Some(p) && p@ == self@.sessions[conn]),
            !self@.sessions.contains_key(conn) ==> r is None,
    {
        broadcast use vstd::std_specs::hash::group_hash_axioms;

        match self.sessions.get(&conn) {
            Some(p) => Some(p.duplicate()),
            None => None,
        }
    }

    /// The members of channel `channel` with their connections, each exactly
    /// once, in no particular order; `OutOfRange` when there is no such channel.
    pub fn members_snapshot(&self, channel: usize) -> (r: Result<Vec<(String, u64)>, RegistryError>)
        ensures
            channel < self@.channels.len() <==> r is Ok,
            r matches Err(e) ==> e == RegistryError::OutOfRange,
            r matches Ok(s) ==> distinct_names(entries_view(s@)) && forall|name: Seq<char>|
                #[trigger] self@.channels[channel as int].contains_key(name) <==> exists|i: int|
                    0 <= i < s@.len() && s@[i].0@ == name,
            r matches Ok(s) ==> forall|i: int|
                0 <= i < s@.len() ==> #[trigger] self@.channels[channel as int][s@[i].0@] == s@[i].1,
    {
        match self.registry.get(channel) {
            Err(e) => Err(e),
            Ok(ch) => {
                let s = ch.members_snapshot();
                proof {
                    let all = entries_view(s@);
                    assert forall|i: int, j: int|
                        0 <= i < all.len() && 0 <= j < all.len() && i != j implies all[i].0
                        != all[j].0 by {
                        assert(all[i].0 == s@[i].0@);
                        assert(all[j].0 == s@[j].0@);
                    }
                    let ghost m = self@.channels[channel as int];
                    assert forall|i: int| 0 <= i < s@.len() implies #[trigger] m[s@[i].0@]
                        == s@[i].1 by {
                        assert(ch@.contains_key(s@[i].0@));
                    }
                }
                Ok(s)
            },
        }
    }

    /// A fan-out pass that delivers `intent` to the current members of channel
    /// `channel`, or `OutOfRange` when there is no such channel. With `echo`
    /// unset, the author of chat text is not sent their own message.
    pub fn plan_fan_out(&self, channel: usize, intent: &Message, echo: bool) -> (r: Result<
        FanOut,
        RegistryError,
    >)
        ensures
            channel < self@.channels.len() <==> r is Ok,
            r matches Err(e) ==> e == RegistryError::OutOfRange,
            r matches Ok(f) ==> f.wf() && f@.next == 0 && f@.failed.len() == 0 && covers(
                f@.targets,
                self@.channels[channel as int],
                intent@,
                echo,
            ),
    {
        match self.registry.get(channel) {
            Err(e) => Err(e),
            Ok(ch) => {
                let snapshot = ch.members_snapshot();
                let f = FanOut::plan(&snapshot, intent, echo);
                proof {
                    let all = entries_view(snapshot@);
                    let members = self@.channels[channel as int];
                    assert(distinct_names(all)) by {
                        assert forall|i: int, j: int|
                            0 <= i < all.len() && 0 <= j < all.len() && i != j implies all[i].0
                            != all[j].0 by {
                            assert(all[i].0 == snapshot@[i].0@);
                            assert(all[j].0 == snapshot@[j].0@);
                        }
                    }
                    lemma_recipients_exactly_once(all, intent@, echo);
                    let t = recipients_of(all, intent@, echo);
                    assert forall|i: int| 0 <= i < t.len() implies members.contains_key(
                        #[trigger] t[i].0,
                    ) && members[t[i].0] == t[i].1 && receives(intent@, t[i].0, echo) by {
                        assert(all.contains(t[i]));
                        let j = choose|j: int| 0 <= j < all.len() && all[j] == t[i];
                        assert(all[j] == (snapshot@[j].0@, snapshot@[j].1));
                        assert(members.contains_key(snapshot@[j].0@));
                    }
                    assert forall|name: Seq<char>|
                        #[trigger] members.contains_key(name) && receives(
                            intent@,
                            name,
                            echo,
                        ) implies exists|i: int| 0 <= i < t.len() && t[i].0 == name by {
                        let j = choose|j: int| 0 <= j < snapshot@.len() && snapshot@[j].0@ == name;
                        assert(all[j] == (snapshot@[j].0@, snapshot@[j].1));
                        assert(all.contains(all[j]));
                        assert(t.contains(all[j]));
                    }
                }
                Ok(f)
            },
        }
    }

    fn on_handshake(&mut self, conn: u64, event: Event) -> (r: Step)
        requires
            old(self).wf(),
            old(self)@.sessions.contains_key(conn),
            old(self)@.sessions[conn] == PhaseView::AwaitingHandshake,
        ensures
            final(self).wf(),
            (final(self)@, r@) == transition(old(self)@, conn, event@),
    {
        broadcast use vstd::std_specs::hash::group_hash_axioms;

        let ghost v0 = self@;
        match event {
            Event::Received(Message::Hello { username, channel }) => {
                if channel >= self.registry.len() {
                    self.sessions.remove(&conn);
                    proof {
                        assert(self@.sessions =~= v0.sessions.remove(conn));
                    assert(self@ == without(v0, conn));
                        self.lemma_consistent_without(v0, conn);
                    }
                    return Step { reply: Some(Message::ChatFull), post: None, close: true };
                }
                let name = username.clone();
                match self.registry.join(channel, username, conn) {
                    Ok(()) => {
                        self.sessions.insert(
                            conn,
                            Phase::Joined { username: name.clone(), channel },
                        );
                        let ghost v1 = self@;
                        proof {
                            assert(v1.channels == v0.channels.update(
                                channel as int,
                                v0.channels[channel as int].insert(name@, conn),
                            ));
                            assert(v1.sessions =~= v0.sessions.insert(
                                conn,
                                PhaseView::Joined { username: name@, channel: channel as nat },
                            ));
                            assert forall|c: int, n: Seq<char>|
                                0 <= c < v1.channels.len()
                                    && #[trigger] v1.channels[c].contains_key(n) implies joined_as(
                                v1,
                                v1.channels[c][n],
                                n,
                                c,
                            ) by {
                                if c != channel as int || n != name@ {
                                    assert(v0.channels[c].contains_key(n));
                                    assert(joined_as(v0, v0.channels[c][n], n, c));
                                }
                            }
                            assert forall|k: u64|
                                #[trigger] v1.sessions.contains_key(k)
                                    && v1.sessions[k] is Joined implies {
                                let c = v1.sessions[k]->Joined_channel as int;
                                let n = v1.sessions[k]->Joined_username;
                                &&& c < v1.channels.len()
                                &&& v1.channels[c].contains_key(n)
                                &&& v1.channels[c][n] == k
                            } by {
                                if k != conn {
                                    let c = v0.sessions[k]->Joined_channel as int;
                                    let n = v0.sessions[k]->Joined_username;
                                    assert(v0.channels[c].contains_key(n));
                                    assert(v0.channels[c][n] == k);
                                    if c == channel as int && n == name@ {
                                        assert(false);
                                    }
                                }
                            }
                        }
                        Step {
                            reply: Some(Message::Accepted),
                            post: Some(
                                Post { channel, intent: Message::UserJoined { user: name } },
                            ),
                            close: false,
                        }
                    },
                    Err(_) => {
                        proof {
                            assert(self@.channels =~= v0.channels);
                            assert(self@.sessions =~= v0.sessions);
                        }
                        Step { reply: Some(Message::UsernameTaken), post: None, close: false }
                    },
                }
            },
            _ => {
                self.sessions.remove(&conn);
                proof {
                    assert(self@.sessions =~= v0.sessions.remove(conn));
                    assert(self@ == without(v0, conn));
                    self.lemma_consistent_without(v0, conn);
                }
                Step { reply: None, post: None, close: true }
            },
        }
    }

    fn on_joined(&mut self, conn: u64, username: String, channel: usize, event: Event) -> (r: Step)
        requires
            old(self).wf(),
            old(self)@.sessions.contains_key(conn),
            old(self)@.sessions[conn] == (PhaseView::Joined {
                username: username@,
                channel: channel as nat,
            }),
        ensures
            final(self).wf(),
            (final(self)@, r@) == transition(old(self)@, conn, event@),
    {
        broadcast use vstd::std_specs::hash::group_hash_axioms;

        let ghost v0 = self@;
        match event {
            Event::Received(Message::ClientMessage { message }) => Step {
                reply: None,
                post: Some(
                    Post { channel, intent: Message::BroadcastMessage { message, user: username } },
                ),
                close: false,
            },
            _ => {
                let announce = match event {
                    Event::Received(Message::Quit) => true,
                    Event::Broken => true,
                    _ => false,
                };
                self.registry.leave(channel, &username);
                self.sessions.remove(&conn);
                let ghost v1 = self@;
                proof {
                    assert(v1.sessions =~= v0.sessions.remove(conn));
                    assert forall|c: int, n: Seq<char>|
                        0 <= c < v1.channels.len()
                            && #[trigger] v1.channels[c].contains_key(n) implies joined_as(
                        v1,
                        v1.channels[c][n],
                        n,
                        c,
                    ) by {
                        assert(v0.channels[c].contains_key(n));
                        assert(joined_as(v0, v0.channels[c][n], n, c));
                    }
                    assert forall|k: u64|
                        #[trigger] v1.sessions.contains_key(k)
                            && v1.sessions[k] is Joined implies {
                        let c = v1.sessions[k]->Joined_channel as int;
                        let n = v1.sessions[k]->Joined_username;
                        &&& c < v1.channels.len()
                        &&& v1.channels[c].contains_key(n)
                        &&& v1.channels[c][n] == k
                    } by {
                        let c = v0.sessions[k]->Joined_channel as int;
                        let n = v0.sessions[k]->Joined_username;
                        assert(v0.channels[c].contains_key(n));
                        assert(v0.channels[c][n] == k);
                    }
                }
                let post = if announce {
                    Some(Post { channel, intent: Message::UserQuit { user: username } })
                } else {
                    None
                };
                Step { reply: None, post, close: true }
            },
        }
    }

    proof fn lemma_consistent_without(&self, v0: RelayView, conn: u64)
        requires
            consistent(v0),
            v0.sessions.contains_key(conn),
            v0.sessions[conn] == PhaseView::AwaitingHandshake,
            self@ == without(v0, conn),
        ensures
            consistent(self@),
    {
        let v1 = self@;
        assert forall|c: int, n: Seq<char>|
            0 <= c < v1.channels.len() && #[trigger] v1.channels[c].contains_key(n) implies joined_as(
            v1,
            v1.channels[c][n],
            n,
            c,
        ) by {
            assert(joined_as(v0, v0.channels[c][n], n, c));
        }
    }
}

/// At every instant, the members of each channel are exactly the usernames of
/// the connections joined to that channel.
pub proof fn lemma_members_are_joined(r: &Relay)
    requires
        r.wf(),
    ensures
        forall|c: int|
            0 <= c < r@.channels.len() ==> (#[trigger] r@.channels[c]).dom() == joined_names(r@, c),
{
    let v = r@;
    assert forall|c: int| 0 <= c < v.channels.len() implies (#[trigger] v.channels[c]).dom()
        == joined_names(v, c) by {
        assert forall|name: Seq<char>| v.channels[c].dom().contains(name) implies joined_names(
            v,
            c,
        ).contains(name) by {
            assert(joined_as(v, v.channels[c][name], name, c));
        }
        assert forall|name: Seq<char>| joined_names(v, c).contains(name) implies v.channels[c].dom().contains(
            name,
        ) by {
            let conn = choose|conn: u64| joined_as(v, conn, name, c);
            assert(v.sessions.contains_key(conn) && v.sessions[conn] is Joined);
        }
        assert(v.channels[c].dom() =~= joined_names(v, c));
    }
}

/// Two connections awaiting their handshake both ask for the same free
/// username in the same channel: the one handled first is accepted and joined,
/// the other is told the name is taken and may try again.
pub proof fn lemma_same_name_once(
    v: RelayView,
    first: u64,
    second: u64,
    name: Seq<char>,
    channel: nat,
)
    requires
        consistent(v),
        first != second,
        v.sessions.contains_key(first),
        v.sessions[first] == PhaseView::AwaitingHandshake,
        v.sessions.contains_key(second),
        v.sessions[second] == PhaseView::AwaitingHandshake,
        channel < v.channels.len(),
        !v.channels[channel as int].contains_key(name),
    ensures
        ({
            let hello = EventView::Received(MessageView::Hello { username: name, channel });
            let after_first = transition(v, first, hello);
            let after_second = transition(after_first.0, second, hello);
            &&& after_first.1.reply == Some(MessageView::Accepted)
            &&& after_second.1.reply == Some(MessageView::UsernameTaken)
            &&& joined_as(after_second.0, first, name, channel as int)
            &&& after_second.0.sessions[second] == PhaseView::AwaitingHandshake
        }),
{
    let hello = EventView::Received(MessageView::Hello { username: name, channel });
    let after_first = transition(v, first, hello);
    assert(after_first.0.channels[channel as int].contains_key(name));
    assert(after_first.0.sessions.contains_key(second));
    assert(after_first.0.sessions[second] == PhaseView::AwaitingHandshake);
}

/// Connection `conn` sends each of `texts` as chat text, in order: the state
/// afterwards and the post of each step.
pub open spec fn chat_run(v: RelayView, conn: u64, texts: Seq<Seq<char>>) -> (
    RelayView,
    Seq<Option<PostView>>,
)
    decreases texts.len(),
{
    if texts.len() == 0 {
        (v, Seq::empty())
    } else {
        let before = chat_run(v, conn, texts.drop_last());
        let after = transition(
            before.0,
            conn,
            EventView::Received(MessageView::ClientMessage { message: texts.last() }),
        );
        (after.0, before.1.push(after.1.post))
    }
}

/// Chat text from a joined member is posted once per message, to its own
/// channel, as a `BroadcastMessage` from that member, in the order the
/// messages were read; membership does not change meanwhile.
pub proof fn lemma_chat_posted_in_order(
    v: RelayView,
    conn: u64,
    name: Seq<char>,
    channel: int,
    texts: Seq<Seq<char>>,
)
    requires
        joined_as(v, conn, name, channel),
    ensures
        chat_run(v, conn, texts).0 == v,
        chat_run(v, conn, texts).1.len() == texts.len(),
        forall|i: int|
            0 <= i < texts.len() ==> #[trigger] chat_run(v, conn, texts).1[i] == Some(
                PostView {
                    channel: channel as nat,
                    intent: MessageView::BroadcastMessage { message: texts[i], user: name },
                },
            ),
    decreases texts.len(),
{
    if texts.len() > 0 {
        lemma_chat_posted_in_order(v, conn, name, channel, texts.drop_last());
        let before = chat_run(v, conn, texts.drop_last());
        assert forall|i: int| 0 <= i < texts.len() implies #[trigger] chat_run(v, conn, texts).1[i]
            == Some(
            PostView {
                channel: channel as nat,
                intent: MessageView::BroadcastMessage { message: texts[i], user: name },
            },
        ) by {
            if i < texts.len() - 1 {
                assert(before.1[i] == chat_run(v, conn, texts).1[i]);
                assert(texts.drop_last()[i] == texts[i]);
            }
        }
    }
}

} // verus!
