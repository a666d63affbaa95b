use crate::channel::{after_join, Channel, JoinError};
use crate::members::MAX_CAPACITY_HINT;
use vstd::prelude::*;

verus! {

/// Why a channel lookup failed.
#[derive(Debug, Clone, Copy, PartialEq, Eq, Structural)]
pub enum RegistryError {
    /// The index is not below the number of channels.
    OutOfRange,
}

/// The fixed sequence of channels, indexed by channel number. Its length is
/// set at creation and never changes.
pub struct ChannelRegistry {
    channels: Vec<Channel>,
}

impl View for ChannelRegistry {
    type V = Seq<Map<Seq<char>, u64>>;

    closed spec fn view(&self) -> Seq<Map<Seq<char>, u64>> {
        self.channels@.map_values(|c: Channel| c@)
    }
}

impl ChannelRegistry {
    /// `count` empty channels, each created with the membership hint `capacity`.
    pub fn new(count: usize, capacity: usize) -> (r: ChannelRegistry)
        requires
            capacity <= MAX_CAPACITY_HINT,
        ensures
            r@.len() == count,
            forall|i: int| 0 <= i < count ==> (#[trigger] r@[i]).dom() == Set::<Seq<char>>::empty(),
    {
        let mut channels: Vec<Channel> = Vec::new();
        let mut i: usize = 0;
        while i < count
            invariant
                i <= count,
                capacity <= MAX_CAPACITY_HINT,
                channels@.len() == i,
                forall|j: int| 0 <= j < i ==> (#[trigger] channels@[j])@.dom() == Set::<
                    Seq<char>,
                >::empty(),
            decreases count - i,
        {
            channels.push(Channel::new(capacity));
            i = i + 1;
        }
        ChannelRegistry { channels }
    }

    /// The number of channels.
    pub fn len(&self) -> (r: usize)
        ensures
            r == self@.len(),
    {
        self.channels.len()
    }

    /// The channel at `index`, or `OutOfRange` when there is none.
    pub fn get(&self, index: usize) -> (r: Result<&Channel, RegistryError>)
        ensures
            index < self@.len() <==> r is Ok,
            r matches Ok(c) ==> c@ == self@[index as int],
            r matches Err(e) ==> e == RegistryError::OutOfRange,
    {
        if index < self.channels.len() {
            Ok(&self.channels[index])
        } else {
            Err(RegistryError::OutOfRange)
        }
    }

    /// Joins `username`, held by connection `conn`, to channel `index`.
    pub fn join(&mut self, index: usize, username: String, conn: u64) -> (r: Result<
        (),
        JoinError,
    >)
        requires
            index < old(self)@.len(),
        ensures
            final(self)@ == old(self)@.update(
                index as int,
                after_join(old(self)@[index as int], username@, conn),
            ),
            old(self)@[index as int].contains_key(username@) ==> r == Err::<(), JoinError>(
                JoinError::NameTaken,
            ),
            !old(self)@[index as int].contains_key(username@) ==> r is Ok,
    {
        let r = self.channels[index].join(username, conn);
        proof {
            assert(self@ =~= old(self)@.update(index as int, self.channels@[index as int]@));
        }
        r
    }

    /// Removes `username` from channel `index` if it is there, returning the
    /// connection that held it.
    pub fn leave(&mut self, index: usize, username: &String) -> (r: Option<u64>)
        requires
            index < old(self)@.len(),
        ensures
            final(self)@ == old(self)@.update(
                index as int,
                old(self)@[index as int].remove(username@),
            ),
            old(self)@[index as int].contains_key(username@) ==> r == Some(
                old(self)@[index as int][username@],
            ),
            !old(self)@[index as int].contains_key(username@) ==> r is None,
    {
        let r = self.channels[index].leave(username);
        proof {
            assert(self@ =~= old(self)@.update(index as int, self.channels@[index as int]@));
        }
        r
    }
}

} // verus!
