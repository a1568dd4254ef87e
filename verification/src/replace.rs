//! Replacing the store on disk in one step.
//!
//! New store bytes never overwrite the store in place. They are written to a
//! staging file, the staging file is flushed, and only then is it swapped
//! into the store's place, which the file system does at once or not at all.
//! The caller performs each action and reports whether it succeeded; this
//! module decides what comes next. Whatever fails, and wherever the process
//! stops, the store on disk is the old one or the new one in full.

use vstd::prelude::*;

verus! {

/// What the caller is asked to do next.
#[derive(Clone, Copy, Debug, PartialEq, Eq, Structural)]
pub enum ReplaceAction {
    /// Write the new store bytes to the staging file.
    WriteStaging,
    /// Flush the staging file to the disk.
    FlushStaging,
    /// Rename the staging file to the store's name.
    SwapIntoPlace,
    /// Remove the staging file.
    RemoveStaging,
    /// Nothing more: the new store stands.
    Finish,
    /// Nothing more: the old store stands, and the change failed.
    GiveUp,
}

/// How far a replacement has come: each state names the action whose
/// outcome is awaited.
#[derive(Clone, Copy, Debug, PartialEq, Eq, Structural)]
pub enum ReplaceState {
    Staging,
    Flushing,
    Swapping,
    Cleaning,
    Done,
    Failed,
}

/// The action that a state awaits the outcome of.
pub open spec fn action_of(state: ReplaceState) -> ReplaceAction {
    match state {
        ReplaceState::Staging => ReplaceAction::WriteStaging,
        ReplaceState::Flushing => ReplaceAction::FlushStaging,
        ReplaceState::Swapping => ReplaceAction::SwapIntoPlace,
        ReplaceState::Cleaning => ReplaceAction::RemoveStaging,
        ReplaceState::Done => ReplaceAction::Finish,
        ReplaceState::Failed => ReplaceAction::GiveUp,
    }
}

/// The state that follows once the awaited action has succeeded or failed.
pub open spec fn after(state: ReplaceState, succeeded: bool) -> ReplaceState {
    match state {
        ReplaceState::Staging => if succeeded {
            ReplaceState::Flushing
        } else {
            ReplaceState::Cleaning
        },
        ReplaceState::Flushing => if succeeded {
            ReplaceState::Swapping
        } else {
            ReplaceState::Cleaning
        },
        ReplaceState::Swapping => if succeeded {
            ReplaceState::Done
        } else {
            ReplaceState::Cleaning
        },
        ReplaceState::Cleaning => ReplaceState::Failed,
        ReplaceState::Done => ReplaceState::Done,
        ReplaceState::Failed => ReplaceState::Failed,
    }
}

/// Begins a replacement: the first state and the first action.
pub fn begin() -> (first: (ReplaceState, ReplaceAction))
    ensures
        first.0 == ReplaceState::Staging,
        first.1 == action_of(first.0),
{
    (ReplaceState::Staging, ReplaceAction::WriteStaging)
}

/// Takes the outcome of the awaited action and says what comes next.
pub fn next(state: ReplaceState, succeeded: bool) -> (following: (ReplaceState, ReplaceAction))
    ensures
        following.0 == after(state, succeeded),
        following.1 == action_of(following.0),
{
    let following = match state {
        ReplaceState::Staging => if succeeded {
            ReplaceState::Flushing
        } else {
            ReplaceState::Cleaning
        },
        ReplaceState::Flushing => if succeeded {
            ReplaceState::Swapping
        } else {
            ReplaceState::Cleaning
        },
        ReplaceState::Swapping => if succeeded {
            ReplaceState::Done
        } else {
            ReplaceState::Cleaning
        },
        ReplaceState::Cleaning | ReplaceState::Failed => ReplaceState::Failed,
        ReplaceState::Done => ReplaceState::Done,
    };
    let action = match following {
        ReplaceState::Staging => ReplaceAction::WriteStaging,
        ReplaceState::Flushing => ReplaceAction::FlushStaging,
        ReplaceState::Swapping => ReplaceAction::SwapIntoPlace,
        ReplaceState::Cleaning => ReplaceAction::RemoveStaging,
        ReplaceState::Done => ReplaceAction::Finish,
        ReplaceState::Failed => ReplaceAction::GiveUp,
    };
    (following, action)
}

/// Whether a replacement has ended.
pub fn is_over(state: ReplaceState) -> (over: bool)
    ensures
        over == (state == ReplaceState::Done || state == ReplaceState::Failed),
{
    match state {
        ReplaceState::Done | ReplaceState::Failed => true,
        _ => false,
    }
}

/// The two files of a wallet directory, as far as a replacement touches
/// them.
pub struct Disk {
    /// The store, if one stands.
    pub live: Option<Seq<u8>>,
    /// The staging file, if one stands.
    pub staging: Option<Seq<u8>>,
}

/// One step as the disk sees it: whether the action went through, and what a
/// write that did not go through left in the staging file.
pub struct Outcome {
    pub succeeded: bool,
    pub leftover: Option<Seq<u8>>,
}

/// What an action does to the disk. A write that fails, or that the process
/// does not survive, leaves anything in the staging file; a rename happens
/// in full or not at all; no action but the rename touches the store.
pub open spec fn effect(disk: Disk, action: ReplaceAction, outcome: Outcome, new: Seq<u8>) -> Disk {
    match action {
        ReplaceAction::WriteStaging => Disk {
            live: disk.live,
            staging: if outcome.succeeded {
                Some(new)
            } else {
                outcome.leftover
            },
        },
        ReplaceAction::SwapIntoPlace => if outcome.succeeded {
            Disk { live: disk.staging, staging: None }
        } else {
            disk
        },
        ReplaceAction::RemoveStaging => if outcome.succeeded {
            Disk { live: disk.live, staging: None }
        } else {
            disk
        },
        _ => disk,
    }
}

/// What holds of the disk while a replacement of `old` by `new` stands in a
/// state.
pub open spec fn consistent(state: ReplaceState, disk: Disk, old: Option<Seq<u8>>, new: Seq<u8>) -> bool {
    match state {
        ReplaceState::Staging | ReplaceState::Cleaning | ReplaceState::Failed => disk.live == old,
        ReplaceState::Flushing | ReplaceState::Swapping => disk.live == old && disk.staging == Some(
            new,
        ),
        ReplaceState::Done => disk.live == Some(new),
    }
}

/// The state and the disk after a run of steps, each with its outcome.
pub open spec fn run(state: ReplaceState, disk: Disk, outcomes: Seq<Outcome>, new: Seq<u8>) -> (
    ReplaceState,
    Disk,
)
    decreases outcomes.len(),
{
    if outcomes.len() == 0 {
        (state, disk)
    } else {
        let (before, then) = run(state, disk, outcomes.drop_last(), new);
        (after(before, outcomes.last().succeeded), effect(then, action_of(before), outcomes.last(), new))
    }
}

/// One step keeps the disk consistent with the state.
pub proof fn lemma_step_consistent(
    state: ReplaceState,
    disk: Disk,
    outcome: Outcome,
    old: Option<Seq<u8>>,
    new: Seq<u8>,
)
    requires
        consistent(state, disk, old, new),
    ensures
        consistent(
            after(state, outcome.succeeded),
            effect(disk, action_of(state), outcome, new),
            old,
            new,
        ),
{
}

/// A replacement is all or nothing. Start with the old store on disk and
/// anything in the staging file, and let the steps succeed or fail in any
/// way: after any number of steps, which is where a killed process leaves
/// the disk, the store is the old one or the new one in full. A replacement
/// that ends well has put the new store in place, and one that ends badly
/// has left the old one.
pub proof fn lemma_all_or_nothing(
    old: Option<Seq<u8>>,
    leftover: Option<Seq<u8>>,
    outcomes: Seq<Outcome>,
    new: Seq<u8>,
)
    ensures
        ({
            let (state, disk) = run(
                ReplaceState::Staging,
                Disk { live: old, staging: leftover },
                outcomes,
                new,
            );
            &&& consistent(state, disk, old, new)
            &&& disk.live == old || disk.live == Some(new)
            &&& state == ReplaceState::Done ==> disk.live == Some(new)
            &&& state == ReplaceState::Failed ==> disk.live == old
        }),
    decreases outcomes.len(),
{
    if outcomes.len() > 0 {
        lemma_all_or_nothing(old, leftover, outcomes.drop_last(), new);
        let (before, then) = run(
            ReplaceState::Staging,
            Disk { live: old, staging: leftover },
            outcomes.drop_last(),
            new,
        );
        lemma_step_consistent(before, then, outcomes.last(), old, new);
    }
}

} // verus!
