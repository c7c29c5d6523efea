use vstd::prelude::*;
use crate::command::{command_of, get_command_type, CommandType};
use crate::framer::ReadFault;

verus! {

/// What the relay loop does after forwarding a display-link command to the
/// sensor link.
#[derive(Clone, Copy, Debug, PartialEq, Eq, Structural)]
pub enum RelayAction {
    /// Read the sensor's reply and forward it to the display link.
    ForwardReply,
    /// Run a streaming session to its end, then drain the sensor link.
    StartStreaming,
    /// Nothing more: the command has been forwarded.
    Idle,
}

pub open spec fn relay_action_of(command: CommandType) -> RelayAction {
    match command {
        CommandType::Config => RelayAction::ForwardReply,
        CommandType::Stat => RelayAction::StartStreaming,
        _ => RelayAction::Idle,
    }
}

/// The relay loop's decision for a display-link frame.
pub fn relay_decision(command: &Vec<u8>) -> (r: RelayAction)
    ensures
        r == relay_action_of(command_of(command@)),
{
    match get_command_type(command) {
        CommandType::Config => RelayAction::ForwardReply,
        CommandType::Stat => RelayAction::StartStreaming,
        _ => RelayAction::Idle,
    }
}

/// What the halt watcher of a streaming session does after one read of the
/// display link.
#[derive(Clone, Copy, Debug, PartialEq, Eq, Structural)]
pub enum WatchAction {
    /// Read the next frame.
    KeepWatching,
    /// A halt frame arrived: end the session.
    Halt,
    /// The read failed for good: the watcher ends, and with it the session.
    Stop,
}

/// The watcher's decision after a frame was read.
pub fn watch_frame(frame: &Vec<u8>) -> (r: WatchAction)
    ensures
        r == (if command_of(frame@) == CommandType::Halt {
            WatchAction::Halt
        } else {
            WatchAction::KeepWatching
        }),
{
    if get_command_type(frame) == CommandType::Halt {
        WatchAction::Halt
    } else {
        WatchAction::KeepWatching
    }
}

/// The watcher's decision after a read failed: a timeout is retried, any
/// other failure stops it.
pub fn watch_fault(fault: ReadFault) -> (r: WatchAction)
    ensures
        r == (if fault == ReadFault::TimedOut {
            WatchAction::KeepWatching
        } else {
            WatchAction::Stop
        }),
{
    if fault == ReadFault::TimedOut {
        WatchAction::KeepWatching
    } else {
        WatchAction::Stop
    }
}

/// Whether the watcher's action ends the streaming session.
pub fn ends_session(action: WatchAction) -> (r: bool)
    ensures
        r == (action != WatchAction::KeepWatching),
{
    action != WatchAction::KeepWatching
}

} // verus!
