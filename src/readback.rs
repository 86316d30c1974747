//! The submit-and-read-back protocol of one dispatch, as a state machine.
//! The caller performs each action against the device and reports what came
//! of it; the machine decides the next action. The mapped staging buffer is
//! read only after the device has reached the submission and the map has
//! succeeded, and no failure is retried.
use vstd::prelude::*;

use crate::Error;

verus! {

#[derive(Clone, Copy, Debug, PartialEq, Eq, Structural)]
pub enum Stage {
    /// Buffers, bindings and commands are ready; nothing is submitted yet.
    Built,
    /// The command batch is submitted.
    Submitted,
    /// A map for reading is requested; `polled` once the device has reached
    /// the submission.
    MapRequested { polled: bool },
    /// The staging buffer is mapped and may be read.
    Mapped,
    /// The result is decoded and the staging buffer released.
    Decoded,
    /// The dispatch failed; this is final.
    Failed { error: Error },
}

#[derive(Clone, Copy, Debug, PartialEq, Eq, Structural)]
pub enum Event {
    /// The batch was submitted.
    Submitted,
    /// The map request was issued.
    MapRequested,
    /// The wait for the submission ended; `ok` is false when the waiting
    /// task itself failed.
    PollFinished { ok: bool },
    /// The map completed; `ok` is false when the device reported a failure.
    MapFinished { ok: bool },
    /// The mapped bytes were decoded; `ok` is false on a layout mismatch.
    Decoded { ok: bool },
}

#[derive(Clone, Copy, Debug, PartialEq, Eq, Structural)]
pub enum Action {
    /// Record the pass and the copy to staging, and submit them.
    Submit,
    /// Request a map of the staging buffer for reading.
    RequestMap,
    /// Wait until the device reaches the submission.
    Poll,
    /// Wait for the map to complete.
    AwaitMap,
    /// Decode the mapped bytes.
    Decode,
    /// Release the mapped view and unmap the staging buffer; the result is ready.
    Finish,
    /// Release whatever is held and report the error.
    Fail { error: Error },
    /// The event does not belong to this stage; nothing to do.
    Ignore,
}

/// The protocol's transitions.
pub open spec fn step_spec(stage: Stage, event: Event) -> (Stage, Action) {
    match (stage, event) {
        (Stage::Built, Event::Submitted) => (Stage::Submitted, Action::RequestMap),
        (Stage::Submitted, Event::MapRequested) => (Stage::MapRequested { polled: false }, Action::Poll),
        (Stage::MapRequested { polled: false }, Event::PollFinished { ok }) =>
            if ok {
                (Stage::MapRequested { polled: true }, Action::AwaitMap)
            } else {
                (Stage::Failed { error: Error::PollTaskFailed }, Action::Fail { error: Error::PollTaskFailed })
            },
        (Stage::MapRequested { polled: true }, Event::MapFinished { ok }) =>
            if ok {
                (Stage::Mapped, Action::Decode)
            } else {
                (Stage::Failed { error: Error::MapFailed }, Action::Fail { error: Error::MapFailed })
            },
        (Stage::Mapped, Event::Decoded { ok }) =>
            if ok {
                (Stage::Decoded, Action::Finish)
            } else {
                (Stage::Failed { error: Error::LayoutMismatch }, Action::Fail { error: Error::LayoutMismatch })
            },
        _ => (stage, Action::Ignore),
    }
}

/// Where a dispatch starts, and its first action.
pub fn start() -> (r: (Stage, Action))
    ensures
        r == (Stage::Built, Action::Submit),
{
    (Stage::Built, Action::Submit)
}

/// The next stage and action after `event` in `stage`.
pub fn step(stage: Stage, event: Event) -> (r: (Stage, Action))
    ensures
        r == step_spec(stage, event),
        r.1 == Action::Decode ==> stage == (Stage::MapRequested { polled: true })
            && event == (Event::MapFinished { ok: true }),
        r.0 == (Stage::MapRequested { polled: true }) ==> r.0 == stage
            || event == (Event::PollFinished { ok: true }),
        stage is Failed ==> r == (stage, Action::Ignore),
        stage is Decoded ==> r == (stage, Action::Ignore),
{
    match (stage, event) {
        (Stage::Built, Event::Submitted) => (Stage::Submitted, Action::RequestMap),
        (Stage::Submitted, Event::MapRequested) => (Stage::MapRequested { polled: false }, Action::Poll),
        (Stage::MapRequested { polled: false }, Event::PollFinished { ok }) => {
            if ok {
                (Stage::MapRequested { polled: true }, Action::AwaitMap)
            } else {
                (Stage::Failed { error: Error::PollTaskFailed }, Action::Fail { error: Error::PollTaskFailed })
            }
        },
        (Stage::MapRequested { polled: true }, Event::MapFinished { ok }) => {
            if ok {
                (Stage::Mapped, Action::Decode)
            } else {
                (Stage::Failed { error: Error::MapFailed }, Action::Fail { error: Error::MapFailed })
            }
        },
        (Stage::Mapped, Event::Decoded { ok }) => {
            if ok {
                (Stage::Decoded, Action::Finish)
            } else {
                (Stage::Failed { error: Error::LayoutMismatch }, Action::Fail { error: Error::LayoutMismatch })
            }
        },
        _ => (stage, Action::Ignore),
    }
}

} // verus!
