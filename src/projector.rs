use vstd::prelude::*;
use crate::model::Poll;

verus! {

/// The parts of a poll whose change a live subscriber is told of.
#[derive(Clone, Copy, Debug, PartialEq, Eq, Structural)]
pub struct Snapshot {
    pub total_votes: u64,
    pub is_closed: bool,
}

/// What a subscription does on one tick.
#[derive(Debug)]
pub enum StreamAction {
    /// Send this poll to the subscriber.
    Emit(Poll),
    /// Send nothing this tick.
    Skip,
    /// End the stream.
    End,
}

/// The comparison state of one subscription to one poll: the snapshot it
/// last sent, if any. Each subscription holds its own.
#[derive(Debug)]
pub struct StreamTracker {
    pub last: Option<Snapshot>,
}

pub open spec fn snapshot_of(p: Poll) -> Snapshot {
    Snapshot { total_votes: p.total_votes, is_closed: p.is_closed }
}

impl StreamTracker {
    /// A subscription that has sent nothing yet.
    pub fn new() -> (r: StreamTracker)
        ensures
            r.last is None,
    {
        StreamTracker { last: None }
    }

    /// Decides one tick from the poll as read this tick (`None` where it
    /// could not be read). The stream ends where the poll is gone or where
    /// the last snapshot sent showed it closed; otherwise the poll is sent
    /// where its total or its closed flag differ from the last snapshot
    /// sent, or nothing has been sent yet, and nothing is sent else.
    pub fn observe(&mut self, fetched: Option<Poll>) -> (r: StreamAction)
        ensures
            match fetched {
                None => r is End && final(self).last == old(self).last,
                Some(p) => if old(self).last matches Some(s) && s.is_closed {
                    r is End && final(self).last == old(self).last
                } else if old(self).last == Some(snapshot_of(p)) {
                    r is Skip && final(self).last == old(self).last
                } else {
                    r matches StreamAction::Emit(q) && q@ == p@ && final(self).last == Some(
                        snapshot_of(p),
                    )
                },
            },
    {
        match fetched {
            None => StreamAction::End,
            Some(p) => {
                let snap = Snapshot { total_votes: p.total_votes, is_closed: p.is_closed };
                match self.last {
                    Some(s) => {
                        if s.is_closed {
                            return StreamAction::End;
                        }
                        if s.total_votes == snap.total_votes && s.is_closed == snap.is_closed {
                            return StreamAction::Skip;
                        }
                    },
                    None => {},
                }
                self.last = Some(snap);
                StreamAction::Emit(p)
            },
        }
    }
}

} // verus!
