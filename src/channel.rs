use crate::members::{
    new_table, table_contains, table_entries, table_insert, table_remove, members_of,
    MAX_CAPACITY_HINT,
};
use dashmap::DashMap;
use vstd::prelude::*;

verus! {

/// Why a join was refused.
#[derive(Debug, Clone, Copy, PartialEq, Eq, Structural)]
pub enum JoinError {
    /// The username is already a member of the channel.
    NameTaken,
}

/// One chat room: its members, each username mapped to the connection that
/// holds it. Usernames are unique within a channel.
pub struct Channel {
    members: DashMap<String, u64>,
}

impl View for Channel {
    type V = Map<Seq<char>, u64>;

    closed spec fn view(&self) -> Map<Seq<char>, u64> {
        members_of(self.members)
    }
}

impl Channel {
    /// An empty channel; `capacity` is a hint for the expected number of members.
    pub fn new(capacity: usize) -> (r: Channel)
        requires
            capacity <= MAX_CAPACITY_HINT,
        ensures
            r@.dom() == Set::<Seq<char>>::empty(),
    {
        Channel { members: new_table(capacity) }
    }

    /// Whether `username` is a member.
    pub fn is_member(&self, username: &String) -> (r: bool)
        ensures
            r == self@.contains_key(username@),
    {
        table_contains(&self.members, username)
    }

    /// Adds `username`, held by connection `conn`, unless the name is taken.
    pub fn join(&mut self, username: String, conn: u64) -> (r: Result<(), JoinError>)
        ensures
            final(self)@ == after_join(old(self)@, username@, conn),
            old(self)@.contains_key(username@) ==> r == Err::<(), JoinError>(JoinError::NameTaken),
            !old(self)@.contains_key(username@) ==> r is Ok,
    {
        if table_contains(&self.members, &username) {
            Err(JoinError::NameTaken)
        } else {
            table_insert(&mut self.members, username, conn);
            Ok(())
        }
    }

    /// Removes `username` if it is a member and returns the connection that held
    /// it. Leaving twice is harmless: the second call finds nothing.
    pub fn leave(&mut self, username: &String) -> (r: Option<u64>)
        ensures
            final(self)@ == old(self)@.remove(username@),
            old(self)@.contains_key(username@) ==> r == Some(old(self)@[username@]),
            !old(self)@.contains_key(username@) ==> r is None,
    {
        table_remove(&mut self.members, username)
    }

    /// The current members with their connections, each exactly once, in no
    /// particular order.
    pub fn members_snapshot(&self) -> (r: Vec<(String, u64)>)
        ensures
            forall|i: int|
                0 <= i < r@.len() ==> #[trigger] self@.contains_key(r@[i].0@) && self@[r@[i].0@]
                    == r@[i].1,
            forall|k: Seq<char>|
                #[trigger] self@.contains_key(k) ==> exists|i: int|
                    0 <= i < r@.len() && r@[i].0@ == k,
            forall|i: int, j: int|
                0 <= i < r@.len() && 0 <= j < r@.len() && i != j ==> r@[i].0@ != r@[j].0@,
    {
        table_entries(&self.members)
    }
}

/// The members after `join(name, conn)`, which changes nothing when the name is taken.
pub open spec fn after_join(m: Map<Seq<char>, u64>, name: Seq<char>, conn: u64) -> Map<
    Seq<char>,
    u64,
> {
    if m.contains_key(name) {
        m
    } else {
        m.insert(name, conn)
    }
}

/// After a join and a leave under the same name, that name is free again, so a
/// second join succeeds; when the first join found the name free, the leave
/// restores the members exactly as they were.
pub proof fn lemma_rejoin_after_leave(
    m: Map<Seq<char>, u64>,
    name: Seq<char>,
    first: u64,
    second: u64,
)
    ensures
        !after_join(m, name, first).remove(name).contains_key(name),
        after_join(after_join(m, name, first).remove(name), name, second) == after_join(
            m,
            name,
            first,
        ).remove(name).insert(name, second),
        !m.contains_key(name) ==> after_join(m, name, first).remove(name) == m,
{
    if !m.contains_key(name) {
        assert(m.insert(name, first).remove(name) =~= m);
    }
}

} // verus!
