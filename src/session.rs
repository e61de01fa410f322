//! The decisions of a collector iteration and of its supervisor. The waiting,
//! sleeping and network work happen outside; these functions say what follows
//! each thing that happened.

use vstd::prelude::*;

verus! {

/// How long a collector waits for the next block, in milliseconds.
pub const NEWBLOCK_TIMEOUT_MS: u64 = 60000;

/// After this many processed blocks the subscription is rotated.
pub const DISCONNECT_AFTER_BLOCKS: u64 = 100;

/// How long the supervisor waits before restarting a collector, in seconds.
pub const RECONNECT_DELAY_SECS: u64 = 5;

/// How a collector iteration ended without an error.
#[derive(Clone, Copy, Debug, PartialEq, Eq, Structural)]
pub enum Outcome {
    /// No block within the deadline (milliseconds).
    Timeout(u64),
    /// The block stream closed after this many blocks.
    Disconnect(u64),
    /// The block ceiling was reached.
    BlockElapsed(u64),
}

/// A running collector iteration: the blocks it has processed.
#[derive(Clone, Copy, Debug, PartialEq, Eq, Structural)]
pub struct Collector {
    pub blocks: u64,
}

/// Whether the iteration goes on or ends.
#[derive(Clone, Copy, Debug, PartialEq, Eq, Structural)]
pub enum Progress {
    Running(Collector),
    Done(Outcome),
}

impl Collector {
    /// A running iteration is below the block ceiling.
    pub open spec fn wf(self) -> bool {
        self.blocks < DISCONNECT_AFTER_BLOCKS
    }

    pub fn new() -> (r: Collector)
        ensures
            r.wf(),
            r.blocks == 0,
    {
        Collector { blocks: 0 }
    }

    /// The wait for the next block has lasted `waited_ms`: the iteration ends with a
    /// timeout once the deadline is reached, and waits on before it.
    pub fn on_wait(self, waited_ms: u64) -> (r: Progress)
        requires
            self.wf(),
        ensures
            waited_ms >= NEWBLOCK_TIMEOUT_MS ==> r == Progress::Done(Outcome::Timeout(NEWBLOCK_TIMEOUT_MS)),
            waited_ms < NEWBLOCK_TIMEOUT_MS ==> r == Progress::Running(self),
    {
        if waited_ms >= NEWBLOCK_TIMEOUT_MS {
            Progress::Done(Outcome::Timeout(NEWBLOCK_TIMEOUT_MS))
        } else {
            Progress::Running(self)
        }
    }

    /// The block stream closed.
    pub fn on_closed(self) -> (r: Outcome)
        ensures
            r == Outcome::Disconnect(self.blocks),
    {
        Outcome::Disconnect(self.blocks)
    }

    /// A block has been processed: the iteration ends when it was the last one
    /// before the ceiling.
    pub fn after_block(self) -> (r: Progress)
        requires
            self.wf(),
        ensures
            self.blocks + 1 >= DISCONNECT_AFTER_BLOCKS ==> r == Progress::Done(Outcome::BlockElapsed((self.blocks + 1) as u64)),
            self.blocks + 1 < DISCONNECT_AFTER_BLOCKS ==> r == Progress::Running(Collector { blocks: (self.blocks + 1) as u64 }),
            r matches Progress::Running(c) ==> c.wf(),
    {
        let blocks = self.blocks + 1;
        if blocks >= DISCONNECT_AFTER_BLOCKS {
            Progress::Done(Outcome::BlockElapsed(blocks))
        } else {
            Progress::Running(Collector { blocks })
        }
    }
}

/// How a collector iteration ended, as the supervisor sees it.
#[derive(Clone, Copy, Debug, PartialEq, Eq, Structural)]
pub enum IterationEnd {
    Finished(Outcome),
    Failed,
}

/// What the supervisor does before the next iteration.
#[derive(Clone, Copy, Debug, PartialEq, Eq, Structural)]
pub struct Restart {
    pub count_error: bool,
    pub count_timeout: bool,
    pub count_reconnect: bool,
    pub delay_secs: u64,
}

/// The supervisor always restarts after the fixed delay, counting a reconnect, an
/// error when the iteration failed and a timeout when it timed out.
pub fn on_iteration_end(end: IterationEnd) -> (r: Restart)
    ensures
        r.count_reconnect,
        r.count_error == (end == IterationEnd::Failed),
        r.count_timeout == (end matches IterationEnd::Finished(Outcome::Timeout(_))),
        r.delay_secs == RECONNECT_DELAY_SECS,
{
    Restart {
        count_error: match end {
            IterationEnd::Failed => true,
            _ => false,
        },
        count_timeout: match end {
            IterationEnd::Finished(Outcome::Timeout(_)) => true,
            _ => false,
        },
        count_reconnect: true,
        delay_secs: RECONNECT_DELAY_SECS,
    }
}


} // verus!
