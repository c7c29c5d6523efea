use vstd::prelude::*;
use crate::command::{halt_command, halt_literal, reset_command, reset_literal};

verus! {

/// What draining the sensor link does next.
#[derive(Clone, Copy, Debug, PartialEq, Eq, Structural)]
pub enum DrainAction {
    /// Write the reset command to the sensor link.
    SendReset,
    /// Write the halt command to the sensor link.
    SendHalt,
    /// Read and discard one frame from the sensor link.
    ReadFrame,
    /// The link stayed silent for one timeout: draining succeeded.
    Finished,
    /// A write or read failed: draining ends with that error.
    Aborted,
}

/// How the last action on the link went.
#[derive(Clone, Copy, Debug, PartialEq, Eq, Structural)]
pub enum LinkOutcome {
    Done,
    TimedOut,
    Failed,
}

/// The action that follows `action` when it went as `outcome` says.
pub open spec fn drain_next(action: DrainAction, outcome: LinkOutcome) -> DrainAction {
    match action {
        DrainAction::SendReset => if outcome == LinkOutcome::Done {
            DrainAction::SendHalt
        } else {
            DrainAction::Aborted
        },
        DrainAction::SendHalt => if outcome == LinkOutcome::Done {
            DrainAction::ReadFrame
        } else {
            DrainAction::Aborted
        },
        DrainAction::ReadFrame => match outcome {
            LinkOutcome::Done => DrainAction::ReadFrame,
            LinkOutcome::TimedOut => DrainAction::Finished,
            LinkOutcome::Failed => DrainAction::Aborted,
        },
        _ => action,
    }
}

/// The actions taken, in order, starting from `action`, when they go as
/// `outcomes` says.
pub open spec fn drain_trace(action: DrainAction, outcomes: Seq<LinkOutcome>) -> Seq<DrainAction>
    decreases outcomes.len(),
{
    if outcomes.len() == 0 {
        seq![]
    } else {
        seq![action] + drain_trace(drain_next(action, outcomes[0]), outcomes.drop_first())
    }
}

/// Where the actions starting from `action` end, when they go as `outcomes` says.
pub open spec fn drain_after(action: DrainAction, outcomes: Seq<LinkOutcome>) -> DrainAction
    decreases outcomes.len(),
{
    if outcomes.len() == 0 {
        action
    } else {
        drain_after(drain_next(action, outcomes[0]), outcomes.drop_first())
    }
}

/// Restores the sensor to its quiescent configuration mode: reset, halt, then
/// discard frames until a read times out.
pub struct Drain {
    pub next: DrainAction,
}

impl Drain {
    pub fn new() -> (r: Drain)
        ensures
            r.next == DrainAction::SendReset,
    {
        Drain { next: DrainAction::SendReset }
    }

    /// The bytes that a send action writes.
    pub fn command(&self) -> (r: Option<Vec<u8>>)
        ensures
            self.next == DrainAction::SendReset ==> r.is_some()
                && r.unwrap()@ == reset_literal(),
            self.next == DrainAction::SendHalt ==> r.is_some() && r.unwrap()@ == halt_literal(),
            self.next != DrainAction::SendReset && self.next != DrainAction::SendHalt ==> r.is_none(),
    {
        match self.next {
            DrainAction::SendReset => Some(reset_command()),
            DrainAction::SendHalt => Some(halt_command()),
            _ => None,
        }
    }

    /// Records how the last action went and moves on to the next.
    pub fn step(&mut self, outcome: LinkOutcome) -> (r: DrainAction)
        ensures
            final(self).next == drain_next(old(self).next, outcome),
            r == final(self).next,
    {
        let next = match self.next {
            DrainAction::SendReset => if outcome == LinkOutcome::Done {
                DrainAction::SendHalt
            } else {
                DrainAction::Aborted
            },
            DrainAction::SendHalt => if outcome == LinkOutcome::Done {
                DrainAction::ReadFrame
            } else {
                DrainAction::Aborted
            },
            DrainAction::ReadFrame => match outcome {
                LinkOutcome::Done => DrainAction::ReadFrame,
                LinkOutcome::TimedOut => DrainAction::Finished,
                LinkOutcome::Failed => DrainAction::Aborted,
            },
            other => other,
        };
        self.next = next;
        next
    }
}

proof fn lemma_read_frames(n: nat)
    ensures
        ({
            let outcomes = Seq::new(n, |k: int| LinkOutcome::Done) + seq![LinkOutcome::TimedOut];
            &&& drain_trace(DrainAction::ReadFrame, outcomes) == Seq::new(n + 1, |k: int| DrainAction::ReadFrame)
            &&& drain_after(DrainAction::ReadFrame, outcomes) == DrainAction::Finished
        }),
    decreases n,
{
    let outcomes = Seq::new(n, |k: int| LinkOutcome::Done) + seq![LinkOutcome::TimedOut];
    if n == 0 {
        assert(outcomes.drop_first() =~= Seq::<LinkOutcome>::empty());
        assert(outcomes[0] == LinkOutcome::TimedOut);
        assert(drain_trace(DrainAction::Finished, Seq::<LinkOutcome>::empty()) == Seq::<DrainAction>::empty());
        assert(drain_after(DrainAction::Finished, Seq::<LinkOutcome>::empty()) == DrainAction::Finished);
        assert(drain_trace(DrainAction::ReadFrame, outcomes) =~= Seq::new(1, |k: int| DrainAction::ReadFrame));
    } else {
        lemma_read_frames((n - 1) as nat);
        let tail = Seq::new((n - 1) as nat, |k: int| LinkOutcome::Done) + seq![LinkOutcome::TimedOut];
        assert(outcomes.drop_first() =~= tail);
        assert(outcomes[0] == LinkOutcome::Done);
        assert(drain_trace(DrainAction::ReadFrame, outcomes) =~= Seq::new(n + 1, |k: int| DrainAction::ReadFrame));
    }
}

/// On a sensor link that yields `n` frames and then times out, draining sends
/// the reset command, then the halt command, reads `n + 1` times (the last
/// one timing out), and finishes successfully.
pub proof fn lemma_drain_consumes_all(n: nat)
    ensures
        ({
            let outcomes = seq![LinkOutcome::Done, LinkOutcome::Done] + Seq::new(n, |k: int| LinkOutcome::Done)
                + seq![LinkOutcome::TimedOut];
            &&& drain_trace(DrainAction::SendReset, outcomes) == seq![DrainAction::SendReset, DrainAction::SendHalt]
                + Seq::new(n + 1, |k: int| DrainAction::ReadFrame)
            &&& drain_after(DrainAction::SendReset, outcomes) == DrainAction::Finished
        }),
{
    let reads = Seq::new(n, |k: int| LinkOutcome::Done) + seq![LinkOutcome::TimedOut];
    let outcomes = seq![LinkOutcome::Done, LinkOutcome::Done] + reads;
    lemma_read_frames(n);
    assert(outcomes =~= seq![LinkOutcome::Done, LinkOutcome::Done] + Seq::new(n, |k: int| LinkOutcome::Done)
        + seq![LinkOutcome::TimedOut]);
    assert(outcomes.drop_first() =~= seq![LinkOutcome::Done] + reads);
    assert((seq![LinkOutcome::Done] + reads).drop_first() =~= reads);
    assert(outcomes[0] == LinkOutcome::Done);
    assert((seq![LinkOutcome::Done] + reads)[0] == LinkOutcome::Done);
    assert(drain_trace(DrainAction::SendHalt, seq![LinkOutcome::Done] + reads) == seq![DrainAction::SendHalt]
        + drain_trace(DrainAction::ReadFrame, reads));
    assert(drain_after(DrainAction::SendHalt, seq![LinkOutcome::Done] + reads) == drain_after(DrainAction::ReadFrame, reads));
    assert(drain_trace(DrainAction::SendReset, outcomes) =~= seq![DrainAction::SendReset, DrainAction::SendHalt]
        + Seq::new(n + 1, |k: int| DrainAction::ReadFrame));
}

} // verus!
