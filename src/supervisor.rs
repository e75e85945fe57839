use vstd::prelude::*;

use crate::channel::Channel;

verus! {

/// Why a set of channels cannot be supervised together.
#[derive(Clone, Copy, Debug, PartialEq, Eq, Structural)]
pub enum SetupError {
    /// Channels `first` and `second` (`first < second`) watch the same path.
    DuplicatePath { first: usize, second: usize },
}

/// No two of `cs` watch the same path.
pub open spec fn paths_distinct(cs: Seq<Channel>) -> bool {
    forall|i: int, j: int|
        0 <= i < j < cs.len() ==> #[trigger] cs[i].config_view().path@ != #[trigger] cs[j].config_view().path@
}

/// Owns the channels and visits them in a fixed rotation.
pub struct Supervisor {
    channels: Vec<Channel>,
    next: usize,
}

impl Supervisor {
    /// The channels, in rotation order.
    pub closed spec fn channels_view(&self) -> Seq<Channel> {
        self.channels@
    }

    /// The position of the channel whose turn comes next.
    pub closed spec fn next_view(&self) -> int {
        self.next as int
    }

    /// Paths are distinct, and the next turn names a channel (or is 0 where
    /// there are none).
    pub open spec fn wf(&self) -> bool {
        &&& paths_distinct(self.channels_view())
        &&& if self.channels_view().len() == 0 {
            self.next_view() == 0
        } else {
            0 <= self.next_view() < self.channels_view().len()
        }
    }

    /// Takes charge of `channels`, which must watch pairwise different paths;
    /// the rotation starts at the first one.
    pub fn new(channels: Vec<Channel>) -> (r: Result<Supervisor, SetupError>)
        ensures
            r is Ok <==> paths_distinct(channels@),
            r matches Ok(s) ==> s.wf() && s.channels_view() == channels@ && s.next_view() == 0,
            r matches Err(SetupError::DuplicatePath { first, second }) ==> {
                &&& first < second < channels@.len()
                &&& channels@[first as int].config_view().path@ == channels@[second as int].config_view().path@
            },
    {
        let mut j: usize = 1;
        while j < channels.len()
            invariant
                1 <= j,
                forall|a: int, b: int|
                    0 <= a < b < j && b < channels@.len() ==> #[trigger] channels@[a].config_view().path@
                        != #[trigger] channels@[b].config_view().path@,
            decreases channels@.len() - j,
        {
            let mut i: usize = 0;
            while i < j
                invariant
                    i <= j < channels@.len(),
                    forall|a: int| 0 <= a < i ==> #[trigger] channels@[a].config_view().path@
                        != channels@[j as int].config_view().path@,
                decreases j - i,
            {
                if channels[i].config().path == channels[j].config().path {
                    return Err(SetupError::DuplicatePath { first: i, second: j });
                }
                i = i + 1;
            }
            j = j + 1;
        }
        Ok(Supervisor { channels, next: 0 })
    }

    /// How many channels there are.
    pub fn len(&self) -> (n: usize)
        ensures
            n == self.channels_view().len(),
    {
        self.channels.len()
    }

    /// The channel at position `i` of the rotation.
    pub fn channel(&self, i: usize) -> (c: &Channel)
        requires
            i < self.channels_view().len(),
        ensures
            *c == self.channels_view()[i as int],
    {
        &self.channels[i]
    }

    /// The position of the channel whose turn it is, moving the rotation on by
    /// one; `None` where there are no channels.
    pub fn next_channel(&mut self) -> (r: Option<usize>)
        requires
            old(self).wf(),
        ensures
            final(self).wf(),
            final(self).channels_view() == old(self).channels_view(),
            old(self).channels_view().len() == 0 ==> r is None && final(self).next_view() == old(self).next_view(),
            old(self).channels_view().len() > 0 ==> {
                &&& r == Some(old(self).next_view() as usize)
                &&& final(self).next_view() == (old(self).next_view() + 1) % (old(self).channels_view().len() as int)
            },
    {
        if self.channels.len() == 0 {
            return None;
        }
        let current = self.next;
        if self.next + 1 == self.channels.len() {
            self.next = 0;
            proof {
                vstd::arithmetic::div_mod::lemma_mod_self_0(self.channels@.len() as int);
            }
        } else {
            self.next = self.next + 1;
            proof {
                vstd::arithmetic::div_mod::lemma_small_mod(self.next as nat, self.channels@.len() as nat);
            }
        }
        Some(current)
    }
}

} // verus!
