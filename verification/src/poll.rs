//! Polling the chain: which blocks to ask for next, and how far the bridge has
//! come.

use crate::tone::{logs_to_tones, RpcLog};
use crate::topics::TopicTable;
use serde_json::Value;
#[allow(unused_imports)]
use crate::{json, tone};
use vstd::prelude::*;

verus! {

/// What to do once the head is known.
#[derive(Debug, Clone, Copy, PartialEq, Eq, Structural)]
pub enum PollAction {
    /// Ask for the log entries of these blocks, both ends included.
    Fetch { from: u64, to: u64 },
    /// Wait for the next poll.
    Wait,
}

/// How far the bridge has come.
#[derive(Debug, Clone, Copy, PartialEq, Eq, Structural)]
pub struct ChainReader {
    /// The last block whose log entries were forwarded, or the head at which
    /// the bridge started.
    pub cursor: u64,
}

/// What to do for a cursor and a head.
pub open spec fn action_for(cursor: u64, head: Option<u64>) -> PollAction {
    match head {
        Some(h) => if h > cursor {
            PollAction::Fetch { from: (cursor + 1) as u64, to: h }
        } else {
            PollAction::Wait
        },
        None => PollAction::Wait,
    }
}

/// One poll: the head that it saw, if it saw one, and whether the log entries
/// came, where it asked for them.
pub struct Poll {
    /// The head.
    pub head: Option<u64>,
    /// Whether the log entries came.
    pub fetched: bool,
}

/// The cursor after a poll.
pub open spec fn cursor_after(cursor: u64, poll: Poll) -> u64 {
    match action_for(cursor, poll.head) {
        PollAction::Fetch { to, .. } => if poll.fetched {
            to
        } else {
            cursor
        },
        PollAction::Wait => cursor,
    }
}

/// The cursor after a run of polls.
pub open spec fn cursor_after_all(cursor: u64, polls: Seq<Poll>) -> u64
    decreases polls.len(),
{
    if polls.len() == 0 {
        cursor
    } else {
        cursor_after(cursor_after_all(cursor, polls.drop_last()), polls.last())
    }
}

/// The blocks from `from` to `to`, both included.
pub open spec fn blocks(from: int, to: int) -> Seq<int> {
    Seq::new(
        if to >= from {
            (to - from + 1) as nat
        } else {
            0
        },
        |i: int| from + i,
    )
}

/// The blocks whose log entries a poll brings.
pub open spec fn blocks_of(cursor: u64, poll: Poll) -> Seq<int> {
    match action_for(cursor, poll.head) {
        PollAction::Fetch { from, to } => if poll.fetched {
            blocks(from as int, to as int)
        } else {
            Seq::empty()
        },
        PollAction::Wait => Seq::empty(),
    }
}

/// The blocks whose log entries a run of polls brings, in order.
pub open spec fn blocks_of_all(cursor: u64, polls: Seq<Poll>) -> Seq<int>
    decreases polls.len(),
{
    if polls.len() == 0 {
        Seq::empty()
    } else {
        blocks_of_all(cursor, polls.drop_last()) + blocks_of(
            cursor_after_all(cursor, polls.drop_last()),
            polls.last(),
        )
    }
}

impl ChainReader {
    /// Starts at the current head: earlier blocks are not read.
    pub fn start(head: u64) -> (r: ChainReader)
        ensures
            r.cursor == head,
    {
        ChainReader { cursor: head }
    }

    /// What to do for a head, or for a head that could not be had.
    pub fn on_head(&self, head: Option<u64>) -> (r: PollAction)
        ensures
            r == action_for(self.cursor, head),
            match head {
                Some(h) => if h > self.cursor {
                    r matches PollAction::Fetch { from, to } && from == self.cursor + 1 && to == h
                } else {
                    r is Wait
                },
                None => r is Wait,
            },
    {
        match head {
            Some(h) => {
                if h > self.cursor {
                    PollAction::Fetch { from: self.cursor + 1, to: h }
                } else {
                    PollAction::Wait
                }
            },
            None => PollAction::Wait,
        }
    }

    /// The tones for the log entries that came for blocks up to `to`. Where
    /// none could be had, the cursor stays and the next poll asks again.
    pub fn on_logs(&mut self, to: u64, logs: Option<Vec<RpcLog>>, topics: &TopicTable) -> (r: Vec<
        Value,
    >)
        requires
            topics.wf(),
        ensures
            match logs {
                Some(logs) => final(self).cursor == to && json::contents(r@)
                    == tone::tones_of(tone::log_views(logs@), topics@),
                None => *final(self) == *old(self) && r@.len() == 0,
            },
            action_for(old(self).cursor, Some(to)) is Fetch ==> final(self).cursor == cursor_after(
                old(self).cursor,
                (Poll { head: Some(to), fetched: logs is Some }),
            ),
    {
        match logs {
            Some(logs) => {
                let tones = logs_to_tones(&logs, topics);
                self.cursor = to;
                tones
            },
            None => Vec::new(),
        }
    }
}

/// The cursor never goes back.
pub proof fn law_cursor_never_goes_back(cursor: u64, polls: Seq<Poll>)
    ensures
        cursor <= cursor_after_all(cursor, polls),
    decreases polls.len(),
{
    if polls.len() > 0 {
        law_cursor_never_goes_back(cursor, polls.drop_last());
    }
}

/// Every block after the start up to the cursor is read once, in order, and no
/// other, however the heads move and whichever polls fail.
pub proof fn law_each_block_is_read_once(cursor: u64, polls: Seq<Poll>)
    ensures
        blocks_of_all(cursor, polls) == blocks(
            cursor + 1,
            cursor_after_all(cursor, polls) as int,
        ),
    decreases polls.len(),
{
    if polls.len() == 0 {
        assert(blocks_of_all(cursor, polls) =~= blocks(cursor + 1, cursor as int));
    } else {
        let front = polls.drop_last();
        law_each_block_is_read_once(cursor, front);
        law_cursor_never_goes_back(cursor, front);
        assert(blocks_of_all(cursor, polls) =~= blocks(
            cursor + 1,
            cursor_after_all(cursor, polls) as int,
        ));
    }
}

/// A poll that gets its log entries has caught up with the head that it saw.
pub proof fn law_successful_poll_reaches_head(cursor: u64, head: u64)
    ensures
        cursor_after(cursor, Poll { head: Some(head), fetched: true }) == if head > cursor {
            head
        } else {
            cursor
        },
{
}

/// A poll whose log entries did not come changes nothing: the next one asks
/// from the same block on.
pub proof fn law_failed_poll_is_repeated(cursor: u64, head: Option<u64>, next: Option<u64>)
    ensures
        action_for(cursor_after(cursor, Poll { head, fetched: false }), next) == action_for(
            cursor,
            next,
        ),
{
}

/// A head past the cursor asks for every block after the cursor up to that
/// head; any other head, or none, asks for nothing.
pub proof fn law_new_head_asks_for_the_blocks_between(cursor: u64, head: u64)
    ensures
        head > cursor ==> (action_for(cursor, Some(head)) matches PollAction::Fetch { from, to }
            && from == cursor + 1 && to == head),
        head <= cursor ==> action_for(cursor, Some(head)) is Wait,
        action_for(cursor, None) is Wait,
{
}

/// A poll moves the cursor to the head that it saw where that is past the
/// cursor and the log entries came, and leaves it in place otherwise. The blocks
/// that it brings are the ones that the cursor passes, each in its turn.
pub proof fn law_poll_brings_what_the_cursor_passes(cursor: u64, poll: Poll)
    ensures
        cursor_after(cursor, poll) == match poll.head {
            Some(head) => if head > cursor && poll.fetched {
                head
            } else {
                cursor
            },
            None => cursor,
        },
        blocks_of(cursor, poll).len() == cursor_after(cursor, poll) - cursor,
        forall|i: int|
            0 <= i < blocks_of(cursor, poll).len() ==> #[trigger] blocks_of(cursor, poll)[i]
                == cursor + 1 + i,
{
}

/// One more poll starts where the polls before it ended, and adds its blocks to
/// theirs.
pub proof fn law_polls_follow_each_other(cursor: u64, polls: Seq<Poll>, poll: Poll)
    ensures
        cursor_after_all(cursor, Seq::<Poll>::empty()) == cursor,
        cursor_after_all(cursor, polls.push(poll)) == cursor_after(
            cursor_after_all(cursor, polls),
            poll,
        ),
        blocks_of_all(cursor, Seq::<Poll>::empty()) == Seq::<int>::empty(),
        blocks_of_all(cursor, polls.push(poll)) == blocks_of_all(cursor, polls) + blocks_of(
            cursor_after_all(cursor, polls),
            poll,
        ),
{
    assert(polls.push(poll).drop_last() =~= polls);
}

} // verus!
