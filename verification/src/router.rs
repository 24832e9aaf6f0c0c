//! What the servers decide: to whom an announcement goes, and how a reply
//! of the query service is shown.

use crate::builder::FileReply;
use crate::msg::{MsgSrv, MsgSrvView};
use crate::ui::Contents;
use vstd::prelude::*;

verus! {

/// How a page is answered.
#[derive(Clone, Copy, Debug, PartialEq, Eq, Structural)]
pub enum PageStatus {
    /// The page is there.
    Found,
    /// No such page.
    NotFound,
    /// The builder has gone.
    Gone,
}

impl PageStatus {
    /// The status code of HTTP.
    pub open spec fn code_of(self) -> u16 {
        match self {
            PageStatus::Found => 200,
            PageStatus::NotFound => 404,
            PageStatus::Gone => 410,
        }
    }

    /// The status code of HTTP.
    pub fn code(self) -> (code: u16)
        ensures
            code == self.code_of(),
    {
        match self {
            PageStatus::Found => 200,
            PageStatus::NotFound => 404,
            PageStatus::Gone => 410,
        }
    }
}

/// What a page shows for `reply`, and how it is answered: the artifact
/// where there is one, else the not-found page. Nothing while the reply is
/// pending.
pub fn page_for<'a>(reply: &'a FileReply) -> (page: Option<(PageStatus, Contents<'a>)>)
    ensures
        match reply {
            FileReply::Pending => page is None,
            FileReply::Ready(Some(file), _) => page == Some(
                (PageStatus::Found, Contents::Html(file)),
            ),
            FileReply::Ready(None, _) => page == Some(
                (PageStatus::NotFound, Contents::NotFound()),
            ),
        },
{
    match reply {
        FileReply::Pending => None,
        FileReply::Ready(Some(file), _) => Some((PageStatus::Found, Contents::Html(file))),
        FileReply::Ready(None, _) => Some((PageStatus::NotFound, Contents::NotFound())),
    }
}

/// The identities of `entries`, in order.
pub open spec fn identities<C>(entries: Seq<(i64, C)>) -> Seq<i64> {
    entries.map_values(|e: (i64, C)| e.0)
}

/// Each identity is greater than those before it and less than `bound`.
pub open spec fn ascending<C>(entries: Seq<(i64, C)>, bound: int) -> bool {
    &&& forall|i: int, j: int| 0 <= i < j < entries.len() ==> entries[i].0 < entries[j].0
    &&& forall|i: int| 0 <= i < entries.len() ==> (#[trigger] entries[i]).0 < bound
}

/// The identity that a subscriber gets who attaches with `stamp` when all
/// identities below `next` may have been given out.
pub open spec fn identity_for(stamp: i64, next: i64) -> i64 {
    if stamp > next {
        stamp
    } else {
        next
    }
}

/// The live subscribers, each with the channel on which it is reached. `C`
/// is the channel's type; nothing is asked of it.
pub struct Subscribers<C> {
    channels: Vec<(i64, C)>,
    next: i64,
}

impl<C> Subscribers<C> {
    /// The subscribers in the order in which they attached, each with its
    /// identity and its channel.
    pub closed spec fn entries(&self) -> Seq<(i64, C)> {
        self.channels@
    }

    /// The least identity that was not given out yet.
    pub closed spec fn next(&self) -> i64 {
        self.next
    }

    /// The identities of the subscribers.
    pub open spec fn ids(&self) -> Seq<i64> {
        identities(self.entries())
    }

    /// Identities ascend in the order of attaching, and none reaches
    /// `next()`: so no two subscribers share one.
    pub open spec fn wf(&self) -> bool {
        ascending(self.entries(), self.next() as int)
    }

    /// A registry without subscribers.
    pub fn new() -> (subscribers: Self)
        ensures
            subscribers.wf(),
            subscribers.entries() == Seq::<(i64, C)>::empty(),
            subscribers.next() == i64::MIN,
    {
        Subscribers { channels: Vec::new(), next: i64::MIN }
    }

    /// Number of subscribers.
    pub fn len(&self) -> (n: usize)
        ensures
            n == self.entries().len(),
    {
        self.channels.len()
    }

    /// Registers `channel` under a new identity and returns the identity:
    /// `stamp`, or the least one not given out yet where `stamp` is not
    /// greater than all that were. Returns the channel instead when no
    /// identity is left.
    pub fn attach(&mut self, stamp: i64, channel: C) -> (r: Result<i64, C>)
        requires
            old(self).wf(),
        ensures
            final(self).wf(),
            match r {
                Ok(id) => {
                    &&& id == identity_for(stamp, old(self).next())
                    &&& id < i64::MAX
                    &&& final(self).next() == id + 1
                    &&& final(self).entries() == old(self).entries().push((id, channel))
                },
                Err(back) => {
                    &&& identity_for(stamp, old(self).next()) == i64::MAX
                    &&& back == channel
                    &&& final(self).entries() == old(self).entries()
                    &&& final(self).next() == old(self).next()
                },
            },
    {
        let id = if stamp > self.next {
            stamp
        } else {
            self.next
        };
        if id == i64::MAX {
            return Err(channel);
        }
        self.channels.push((id, channel));
        self.next = id + 1;
        Ok(id)
    }

    /// Where the subscriber `id` stands, if it is registered.
    fn position(&self, id: i64) -> (r: Option<usize>)
        ensures
            match r {
                Some(k) => k < self.entries().len() && self.entries()[k as int].0 == id,
                None => forall|i: int|
                    0 <= i < self.entries().len() ==> (#[trigger] self.entries()[i]).0 != id,
            },
    {
        let mut i: usize = 0;
        while i < self.channels.len()
            invariant
                i <= self.channels@.len(),
                forall|j: int| 0 <= j < i ==> (#[trigger] self.channels@[j]).0 != id,
            decreases self.channels@.len() - i,
        {
            if self.channels[i].0 == id {
                return Some(i);
            }
            i = i + 1;
        }
        None
    }

    /// The channel of the subscriber `id`.
    pub fn channel(&self, id: i64) -> (r: Option<&C>)
        requires
            self.wf(),
        ensures
            match r {
                Some(channel) => self.entries().contains((id, *channel)),
                None => !self.ids().contains(id),
            },
    {
        match self.position(id) {
            Some(k) => Some(&self.channels[k].1),
            None => {
                assert forall|i: int| 0 <= i < self.ids().len() implies self.ids()[i] != id by {
                    assert(self.entries()[i].0 != id);
                }
                None
            },
        }
    }

    /// Removes the subscriber `id` and returns its channel. Where no such
    /// subscriber is registered, nothing changes.
    pub fn detach(&mut self, id: i64) -> (r: Option<C>)
        requires
            old(self).wf(),
        ensures
            final(self).wf(),
            final(self).next() == old(self).next(),
            !final(self).ids().contains(id),
            match r {
                Some(channel) => exists|k: int|
                    0 <= k < old(self).entries().len() && old(self).entries()[k] == (id, channel)
                        && final(self).entries() == old(self).entries().remove(k),
                None => !old(self).ids().contains(id) && final(self).entries() == old(
                    self,
                ).entries(),
            },
    {
        match self.position(id) {
            Some(k) => {
                let entry = self.channels.remove(k);
                proof {
                    lemma_removed_is_gone(old(self).entries(), old(self).next() as int, k as int);
                }
                Some(entry.1)
            },
            None => {
                assert forall|i: int| 0 <= i < self.ids().len() implies self.ids()[i] != id by {
                    assert(self.entries()[i].0 != id);
                }
                None
            },
        }
    }

    /// One delivery of `event` for each subscriber, in the order of
    /// attaching: the channel to send on and a copy of the event to send.
    /// Each delivery is an attempt of its own.
    pub fn broadcast(&self, event: &MsgSrv) -> (deliveries: Vec<(&C, MsgSrv)>)
        ensures
            deliveries@.len() == self.entries().len(),
            forall|i: int|
                0 <= i < deliveries@.len() ==> *(#[trigger] deliveries@[i]).0
                    == self.entries()[i].1 && deliveries@[i].1@ == event@,
    {
        let mut deliveries: Vec<(&C, MsgSrv)> = Vec::new();
        let mut i: usize = 0;
        while i < self.channels.len()
            invariant
                i <= self.channels@.len(),
                deliveries@.len() == i,
                forall|j: int|
                    0 <= j < i ==> *(#[trigger] deliveries@[j]).0 == self.channels@[j].1
                        && deliveries@[j].1@ == event@,
            decreases self.channels@.len() - i,
        {
            deliveries.push((&self.channels[i].1, event.clone()));
            i = i + 1;
        }
        deliveries
    }

    /// Ends the registry: one delivery of the terminal event for each
    /// subscriber, with the channel itself.
    pub fn shutdown(self) -> (deliveries: Vec<(C, MsgSrv)>)
        ensures
            deliveries@.len() == self.entries().len(),
            forall|i: int|
                0 <= i < deliveries@.len() ==> (#[trigger] deliveries@[i]).0
                    == self.entries()[i].1 && deliveries@[i].1@ == MsgSrvView::Exit,
    {
        let ghost all = self.channels@;
        let mut deliveries: Vec<(C, MsgSrv)> = Vec::new();
        for entry in it: self.channels
            invariant
                it.seq() == all,
                deliveries@.len() == it.index(),
                forall|j: int|
                    0 <= j < deliveries@.len() ==> (#[trigger] deliveries@[j]).0 == all[j].1
                        && deliveries@[j].1@ == MsgSrvView::Exit,
        {
            deliveries.push((entry.1, MsgSrv::Exit()));
        }
        deliveries
    }
}

/// In a registry whose identities ascend, what is left when one subscriber
/// is removed still ascends, does not hold the identity removed, and holds
/// every other subscriber as before.
pub proof fn lemma_removed_is_gone<C>(entries: Seq<(i64, C)>, bound: int, k: int)
    requires
        ascending(entries, bound),
        0 <= k < entries.len(),
    ensures
        ascending(entries.remove(k), bound),
        !identities(entries.remove(k)).contains(entries[k].0),
        forall|i: int|
            0 <= i < entries.len() && i != k ==> entries.remove(k).contains(#[trigger] entries[i]),
{
    let rest = entries.remove(k);
    assert forall|i: int, j: int| 0 <= i < j < rest.len() implies rest[i].0 < rest[j].0 by {
        let oi = if i < k { i } else { i + 1 };
        let oj = if j < k { j } else { j + 1 };
        assert(rest[i] == entries[oi] && rest[j] == entries[oj]);
    }
    assert forall|i: int| 0 <= i < rest.len() implies (#[trigger] rest[i]).0 < bound by {
        let oi = if i < k { i } else { i + 1 };
        assert(rest[i] == entries[oi]);
    }
    assert forall|i: int| 0 <= i < identities(rest).len() implies identities(rest)[i]
        != entries[k].0 by {
        let oi = if i < k { i } else { i + 1 };
        assert(rest[i] == entries[oi]);
    }
    assert forall|i: int| 0 <= i < entries.len() && i != k implies rest.contains(
        #[trigger] entries[i],
    ) by {
        let ni = if i < k { i } else { i - 1 };
        assert(rest[ni] == entries[i]);
    }
}

} // verus!
