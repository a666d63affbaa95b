use crate::message::{Message, MessageView};
use vstd::prelude::*;

verus! {

/// Whether member `name` is sent `intent`: everyone is, except the author of
/// chat text when the channel does not echo a member's own messages.
pub open spec fn receives(intent: MessageView, name: Seq<char>, echo: bool) -> bool {
    match intent {
        MessageView::BroadcastMessage { message: _, user } => echo || name != user,
        _ => true,
    }
}

/// A member list as values: each username with its connection.
pub open spec fn entries_view(members: Seq<(String, u64)>) -> Seq<(Seq<char>, u64)> {
    members.map_values(|m: (String, u64)| (m.0@, m.1))
}

/// The members that are sent `intent`, in the order of the list.
pub open spec fn recipients_of(
    members: Seq<(Seq<char>, u64)>,
    intent: MessageView,
    echo: bool,
) -> Seq<(Seq<char>, u64)> {
    members.filter(|m: (Seq<char>, u64)| receives(intent, m.0, echo))
}

/// No username occurs twice in the list.
pub open spec fn distinct_names(s: Seq<(Seq<char>, u64)>) -> bool {
    forall|i: int, j: int| 0 <= i < s.len() && 0 <= j < s.len() && i != j ==> s[i].0 != s[j].0
}

/// A pass after the write to its current target went through or failed: the
/// next target is current either way, and a failed target is remembered.
pub open spec fn recorded(f: FanOutView, delivered: bool) -> FanOutView {
    FanOutView {
        targets: f.targets,
        next: f.next + 1,
        failed: if delivered {
            f.failed
        } else {
            f.failed.push(f.targets[f.next as int].1)
        },
    }
}

/// A pass after recording `outcomes`, one per write, in order.
pub open spec fn recorded_all(f: FanOutView, outcomes: Seq<bool>) -> FanOutView
    decreases outcomes.len(),
{
    if outcomes.len() == 0 {
        f
    } else {
        recorded(recorded_all(f, outcomes.drop_last()), outcomes.last())
    }
}

/// One fan-out pass over a channel's members: the targets in the order they
/// are written to, how many have been attempted, and the connections whose
/// write failed.
pub struct FanOut {
    targets: Vec<(String, u64)>,
    next: usize,
    failed: Vec<u64>,
}

/// The value of a `FanOut`.
pub ghost struct FanOutView {
    pub targets: Seq<(Seq<char>, u64)>,
    pub next: nat,
    pub failed: Seq<u64>,
}

impl View for FanOut {
    type V = FanOutView;

    closed spec fn view(&self) -> FanOutView {
        FanOutView { targets: entries_view(self.targets@), next: self.next as nat, failed: self.failed@ }
    }
}

impl FanOut {
    /// No more targets have been attempted than there are.
    pub closed spec fn wf(&self) -> bool {
        self.next <= self.targets@.len()
    }

    /// A pass that delivers `intent` to the members that receive it, taken from
    /// `members` (a snapshot of the channel) in its order.
    pub fn plan(members: &Vec<(String, u64)>, intent: &Message, echo: bool) -> (r: FanOut)
        ensures
            r.wf(),
            r@.targets == recipients_of(entries_view(members@), intent@, echo),
            r@.next == 0,
            r@.failed == Seq::<u64>::empty(),
    {
        let ghost pred = |m: (Seq<char>, u64)| receives(intent@, m.0, echo);
        let ghost all = entries_view(members@);
        let mut targets: Vec<(String, u64)> = Vec::new();
        let mut i: usize = 0;
        while i < members.len()
            invariant
                i <= members@.len(),
                all == entries_view(members@),
                pred == (|m: (Seq<char>, u64)| receives(intent@, m.0, echo)),
                entries_view(targets@) == all.subrange(0, i as int).filter(pred),
            decreases members@.len() - i,
        {
            let name = &members[i].0;
            let keep = match intent {
                Message::BroadcastMessage { message: _, user } => echo || !string_eq(name, user),
                _ => true,
            };
            proof {
                assert(all.subrange(0, i as int + 1).drop_last() =~= all.subrange(0, i as int));
                assert(keep == pred(all[i as int]));
            }
            let ghost before = targets@;
            if keep {
                targets.push((name.clone(), members[i].1));
                proof {
                    assert(entries_view(targets@) =~= entries_view(before).push(all[i as int]));
                }
            }
            proof {
                reveal(Seq::filter);
                let s = all.subrange(0, i as int + 1);
                assert(s.last() == all[i as int]);
                assert(s.filter(pred) == if pred(s.last()) {
                    s.drop_last().filter(pred).push(s.last())
                } else {
                    s.drop_last().filter(pred)
                });
            }
            i = i + 1;
        }
        proof {
            assert(all.subrange(0, members@.len() as int) =~= all);
        }
        FanOut { targets, next: 0, failed: Vec::new() }
    }

    /// The connection to write to next, or `None` once every target has been
    /// attempted.
    pub fn current(&self) -> (r: Option<u64>)
        requires
            self.wf(),
        ensures
            self@.next < self@.targets.len() ==> r == Some(self@.targets[self@.next as int].1),
            self@.next >= self@.targets.len() ==> r is None,
    {
        if self.next < self.targets.len() {
            Some(self.targets[self.next].1)
        } else {
            None
        }
    }

    /// Records the outcome of the write to the current target and moves on to
    /// the next one, whether or not that write went through: a failed member
    /// is remembered for removal and never holds up the others.
    pub fn record(&mut self, delivered: bool)
        requires
            old(self).wf(),
            old(self)@.next < old(self)@.targets.len(),
        ensures
            final(self).wf(),
            final(self)@ == recorded(old(self)@, delivered),
    {
        let n = self.targets.len();
        proof {
            assert(self@.targets.len() == n);
        }
        if !delivered {
            let conn = self.targets[self.next].1;
            self.failed.push(conn);
        }
        self.next = self.next + 1;
    }

    /// Whether every target has been attempted.
    pub fn is_done(&self) -> (r: bool)
        requires
            self.wf(),
        ensures
            r == (self@.next == self@.targets.len()),
    {
        self.next == self.targets.len()
    }

    /// The connections whose write failed so far, in the order attempted.
    pub fn failed(&self) -> (r: &Vec<u64>)
        ensures
            r@ == self@.failed,
    {
        &self.failed
    }
}

/// Whether two strings hold the same characters.
fn string_eq(a: &String, b: &String) -> (r: bool)
    ensures
        r == (a@ == b@),
{
    a.eq(b)
}

/// Of a member list with distinct usernames, the recipients of an intent are
/// exactly the members that receive it, each once.
pub proof fn lemma_recipients_exactly_once(
    members: Seq<(Seq<char>, u64)>,
    intent: MessageView,
    echo: bool,
)
    requires
        distinct_names(members),
    ensures
        distinct_names(recipients_of(members, intent, echo)),
        forall|i: int|
            0 <= i < recipients_of(members, intent, echo).len() ==> members.contains(
                #[trigger] recipients_of(members, intent, echo)[i],
            ) && receives(intent, recipients_of(members, intent, echo)[i].0, echo),
        forall|m: (Seq<char>, u64)|
            #[trigger] members.contains(m) && receives(intent, m.0, echo) ==> recipients_of(
                members,
                intent,
                echo,
            ).contains(m),
    decreases members.len(),
{
    reveal(Seq::filter);
    let pred = |m: (Seq<char>, u64)| receives(intent, m.0, echo);
    let r = recipients_of(members, intent, echo);
    if members.len() > 0 {
        let rest = members.drop_last();
        assert(distinct_names(rest));
        lemma_recipients_exactly_once(rest, intent, echo);
        let rr = recipients_of(rest, intent, echo);
        assert(rr == rest.filter(pred));
        let last = members.last();
        assert forall|i: int| 0 <= i < rr.len() implies (#[trigger] rr[i]).0 != last.0 by {
            assert(rest.contains(rr[i]));
            let j = choose|j: int| 0 <= j < rest.len() && rest[j] == rr[i];
            assert(members[j] == rest[j]);
        }
        assert forall|m: (Seq<char>, u64)|
            #[trigger] members.contains(m) && receives(intent, m.0, echo) implies r.contains(m) by {
            let j = choose|j: int| 0 <= j < members.len() && members[j] == m;
            if j < members.len() - 1 {
                assert(rest[j] == m);
                assert(rr.contains(m));
                let k = choose|k: int| 0 <= k < rr.len() && rr[k] == m;
                if pred(last) {
                    assert(r[k] == m);
                }
            } else {
                assert(r.last() == m);
            }
        }
        assert forall|i: int| 0 <= i < r.len() implies members.contains(#[trigger] r[i])
            && receives(intent, r[i].0, echo) by {
            if i < rr.len() {
                assert(rr[i] == r[i]);
                let j = choose|j: int| 0 <= j < rest.len() && rest[j] == rr[i];
                assert(members[j] == rest[j]);
            } else {
                assert(r[i] == last);
                assert(members[members.len() - 1] == last);
            }
        }
    }
}

/// However the writes of a pass turn out, every target is attempted in turn: a
/// failed write holds up nobody. Afterwards the failed connections are exactly
/// those of the targets whose write failed, in the order attempted.
pub proof fn lemma_pass_reaches_everyone(f: FanOutView, outcomes: Seq<bool>)
    requires
        f.next == 0,
        f.failed.len() == 0,
        outcomes.len() <= f.targets.len(),
    ensures
        recorded_all(f, outcomes).targets == f.targets,
        recorded_all(f, outcomes).next == outcomes.len(),
        recorded_all(f, outcomes).failed == failures(f.targets, outcomes),
    decreases outcomes.len(),
{
    if outcomes.len() > 0 {
        lemma_pass_reaches_everyone(f, outcomes.drop_last());
    }
}

/// The connections of the targets whose write failed, in order: the target at
/// position `i` failed when `outcomes[i]` is false.
pub open spec fn failures(targets: Seq<(Seq<char>, u64)>, outcomes: Seq<bool>) -> Seq<u64>
    decreases outcomes.len(),
{
    if outcomes.len() == 0 {
        Seq::empty()
    } else {
        let before = failures(targets, outcomes.drop_last());
        if outcomes.last() {
            before
        } else {
            before.push(targets[outcomes.len() - 1].1)
        }
    }
}

} // verus!
