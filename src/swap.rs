//! The swap transaction: the decisions of "run the assistant with a
//! provider", as a state machine. The caller performs each action and hands
//! back what happened; the machine makes sure the settings file gets its
//! original content back on every path once it was overwritten.
use vstd::prelude::*;

verus! {

/// Why a swap transaction failed.
#[derive(Clone, Copy, Debug, PartialEq, Eq, Structural)]
pub enum SwapError {
    /// The profile or the settings file is missing.
    NotFound,
    /// The profile or the settings file cannot be parsed.
    Malformed,
    /// Reading the settings file or writing the merged settings failed;
    /// the file holds its original content.
    Io,
    /// Writing the original settings back failed: the file may still hold
    /// the merged settings and must be repaired by hand.
    RestoreFailed,
    /// The assistant could not be launched or exited with a failure.
    RunFailed,
}

/// Where a transaction stands.
#[derive(Debug, PartialEq, Eq)]
pub enum SwapState {
    Idle,
    LoadingProfile,
    ReadingSettings,
    /// The merged settings are being written; `snapshot` is the original.
    WritingMerged { snapshot: String },
    /// The assistant runs with the merged settings.
    Running { snapshot: String },
    /// The original settings are being written back; `result` is what the
    /// transaction reports once that is done.
    Restoring { snapshot: String, result: Result<(), SwapError> },
    Done,
}

/// What the caller reports back.
#[derive(Clone, Debug, PartialEq, Eq)]
pub enum SwapEvent {
    Start,
    ProfileLoaded,
    ProfileMissing,
    ProfileMalformed,
    /// The settings file was read (`original`, verbatim) and parsed, and
    /// `merged` is its content with the profile's environment block.
    SettingsRead { original: String, merged: String },
    SettingsMissing,
    SettingsMalformed,
    /// The settings file exists but could not be read.
    SettingsUnreadable,
    Written,
    WriteFailed,
    ChildExited { success: bool },
    ChildLaunchFailed,
}

/// What the caller must do next.
#[derive(Debug, PartialEq, Eq)]
pub enum SwapAction {
    LoadProfile,
    ReadSettings,
    /// Replace the settings file's content with this text.
    WriteSettings(String),
    RunChild,
    Finish(Result<(), SwapError>),
}

/// The events that a state waits for.
pub open spec fn accepts(st: SwapState, ev: SwapEvent) -> bool {
    match st {
        SwapState::Idle => ev is Start,
        SwapState::LoadingProfile => ev is ProfileLoaded || ev is ProfileMissing
            || ev is ProfileMalformed,
        SwapState::ReadingSettings => ev is SettingsRead || ev is SettingsMissing
            || ev is SettingsMalformed || ev is SettingsUnreadable,
        SwapState::WritingMerged { .. } => ev is Written || ev is WriteFailed,
        SwapState::Running { .. } => ev is ChildExited || ev is ChildLaunchFailed,
        SwapState::Restoring { .. } => ev is Written || ev is WriteFailed,
        SwapState::Done => false,
    }
}

/// One transition of the transaction.
pub open spec fn step_spec(st: SwapState, ev: SwapEvent) -> (SwapState, SwapAction) {
    match (st, ev) {
        (SwapState::Idle, _) => (SwapState::LoadingProfile, SwapAction::LoadProfile),
        (SwapState::LoadingProfile, SwapEvent::ProfileLoaded) => (
            SwapState::ReadingSettings,
            SwapAction::ReadSettings,
        ),
        (SwapState::LoadingProfile, SwapEvent::ProfileMissing) => (
            SwapState::Done,
            SwapAction::Finish(Err(SwapError::NotFound)),
        ),
        (SwapState::LoadingProfile, _) => (
            SwapState::Done,
            SwapAction::Finish(Err(SwapError::Malformed)),
        ),
        (SwapState::ReadingSettings, SwapEvent::SettingsRead { original, merged }) => (
            SwapState::WritingMerged { snapshot: original },
            SwapAction::WriteSettings(merged),
        ),
        (SwapState::ReadingSettings, SwapEvent::SettingsMissing) => (
            SwapState::Done,
            SwapAction::Finish(Err(SwapError::NotFound)),
        ),
        (SwapState::ReadingSettings, SwapEvent::SettingsUnreadable) => (
            SwapState::Done,
            SwapAction::Finish(Err(SwapError::Io)),
        ),
        (SwapState::ReadingSettings, _) => (
            SwapState::Done,
            SwapAction::Finish(Err(SwapError::Malformed)),
        ),
        (SwapState::WritingMerged { snapshot }, SwapEvent::Written) => (
            SwapState::Running { snapshot },
            SwapAction::RunChild,
        ),
        (SwapState::WritingMerged { snapshot }, _) => (
            SwapState::Restoring { snapshot, result: Err(SwapError::Io) },
            SwapAction::WriteSettings(snapshot),
        ),
        (SwapState::Running { snapshot }, SwapEvent::ChildExited { success }) => (
            SwapState::Restoring {
                snapshot,
                result: if success {
                    Ok(())
                } else {
                    Err(SwapError::RunFailed)
                },
            },
            SwapAction::WriteSettings(snapshot),
        ),
        (SwapState::Running { snapshot }, _) => (
            SwapState::Restoring { snapshot, result: Err(SwapError::RunFailed) },
            SwapAction::WriteSettings(snapshot),
        ),
        (SwapState::Restoring { snapshot, result }, SwapEvent::Written) => (
            SwapState::Done,
            SwapAction::Finish(result),
        ),
        (SwapState::Restoring { .. }, _) => (
            SwapState::Done,
            SwapAction::Finish(Err(SwapError::RestoreFailed)),
        ),
        (SwapState::Done, _) => (SwapState::Done, SwapAction::Finish(Err(SwapError::Io))),
    }
}

impl SwapState {
    /// Whether this state waits for `ev`.
    pub fn accepts(&self, ev: &SwapEvent) -> (r: bool)
        ensures
            r == accepts(*self, *ev),
    {
        match self {
            SwapState::Idle => matches!(ev, SwapEvent::Start),
            SwapState::LoadingProfile => matches!(
                ev,
                SwapEvent::ProfileLoaded | SwapEvent::ProfileMissing | SwapEvent::ProfileMalformed
            ),
            SwapState::ReadingSettings => matches!(
                ev,
                SwapEvent::SettingsRead { .. } | SwapEvent::SettingsMissing
                    | SwapEvent::SettingsMalformed | SwapEvent::SettingsUnreadable
            ),
            SwapState::WritingMerged { .. } => matches!(
                ev,
                SwapEvent::Written | SwapEvent::WriteFailed
            ),
            SwapState::Running { .. } => matches!(
                ev,
                SwapEvent::ChildExited { .. } | SwapEvent::ChildLaunchFailed
            ),
            SwapState::Restoring { .. } => matches!(ev, SwapEvent::Written | SwapEvent::WriteFailed),
            SwapState::Done => false,
        }
    }

    /// The next state, and the action the caller performs, after `ev`.
    pub fn step(self, ev: SwapEvent) -> (r: (SwapState, SwapAction))
        requires
            accepts(self, ev),
        ensures
            r == step_spec(self, ev),
    {
        match (self, ev) {
            (SwapState::Idle, _) => (SwapState::LoadingProfile, SwapAction::LoadProfile),
            (SwapState::LoadingProfile, SwapEvent::ProfileLoaded) => (
                SwapState::ReadingSettings,
                SwapAction::ReadSettings,
            ),
            (SwapState::LoadingProfile, SwapEvent::ProfileMissing) => (
                SwapState::Done,
                SwapAction::Finish(Err(SwapError::NotFound)),
            ),
            (SwapState::LoadingProfile, _) => (
                SwapState::Done,
                SwapAction::Finish(Err(SwapError::Malformed)),
            ),
            (SwapState::ReadingSettings, SwapEvent::SettingsRead { original, merged }) => (
                SwapState::WritingMerged { snapshot: original },
                SwapAction::WriteSettings(merged),
            ),
            (SwapState::ReadingSettings, SwapEvent::SettingsMissing) => (
                SwapState::Done,
                SwapAction::Finish(Err(SwapError::NotFound)),
            ),
            (SwapState::ReadingSettings, SwapEvent::SettingsUnreadable) => (
                SwapState::Done,
                SwapAction::Finish(Err(SwapError::Io)),
            ),
            (SwapState::ReadingSettings, _) => (
                SwapState::Done,
                SwapAction::Finish(Err(SwapError::Malformed)),
            ),
            (SwapState::WritingMerged { snapshot }, SwapEvent::Written) => (
                SwapState::Running { snapshot },
                SwapAction::RunChild,
            ),
            (SwapState::WritingMerged { snapshot }, _) => {
                let back = snapshot.clone();
                (
                    SwapState::Restoring { snapshot, result: Err(SwapError::Io) },
                    SwapAction::WriteSettings(back),
                )
            },
            (SwapState::Running { snapshot }, SwapEvent::ChildExited { success }) => {
                let back = snapshot.clone();
                let result = if success {
                    Ok(())
                } else {
                    Err(SwapError::RunFailed)
                };
                (SwapState::Restoring { snapshot, result }, SwapAction::WriteSettings(back))
            },
            (SwapState::Running { snapshot }, _) => {
                let back = snapshot.clone();
                (
                    SwapState::Restoring { snapshot, result: Err(SwapError::RunFailed) },
                    SwapAction::WriteSettings(back),
                )
            },
            (SwapState::Restoring { snapshot: _, result }, SwapEvent::Written) => (
                SwapState::Done,
                SwapAction::Finish(result),
            ),
            (SwapState::Restoring { .. }, _) => (
                SwapState::Done,
                SwapAction::Finish(Err(SwapError::RestoreFailed)),
            ),
            (SwapState::Done, _) => (SwapState::Done, SwapAction::Finish(Err(SwapError::Io))),
        }
    }
}

/// The settings file's content once `a` has been performed.
pub open spec fn disk_after(disk: Seq<char>, a: SwapAction) -> Seq<char> {
    match a {
        SwapAction::WriteSettings(s) => s@,
        _ => disk,
    }
}

/// Drives the transaction from `st` through `evs`, performing each action on
/// a settings file with content `disk`: the final state, the last action, and
/// the file's final content.
pub open spec fn run(st: SwapState, last: SwapAction, evs: Seq<SwapEvent>, disk: Seq<char>) -> (
    SwapState,
    SwapAction,
    Seq<char>,
)
    decreases evs.len(),
{
    if evs.len() == 0 {
        (st, last, disk)
    } else {
        let (next, a) = step_spec(st, evs[0]);
        run(next, a, evs.drop_first(), disk_after(disk, a))
    }
}

/// Whatever the assistant does (exits with success, with failure, or never
/// starts), a transaction that read `original` from the settings file leaves
/// exactly `original` there when it finishes, and reports a failure of the
/// run as such.
pub proof fn lemma_settings_restored(original: String, merged: String, outcome: SwapEvent)
    requires
        outcome is ChildExited || outcome is ChildLaunchFailed,
    ensures
        ({
            let evs = seq![
                SwapEvent::Start,
                SwapEvent::ProfileLoaded,
                SwapEvent::SettingsRead { original, merged },
                SwapEvent::Written,
                outcome,
                SwapEvent::Written,
            ];
            let (st, last, disk) = run(SwapState::Idle, SwapAction::LoadProfile, evs, original@);
            &&& disk == original@
            &&& st is Done
            &&& last == SwapAction::Finish(
                if outcome == (SwapEvent::ChildExited { success: true }) {
                    Ok(())
                } else {
                    Err(SwapError::RunFailed)
                },
            )
        }),
{
    reveal_with_fuel(run, 7);
}

/// Where the merged settings cannot be written, the transaction writes the
/// original back and reports the failure, never running the assistant.
pub proof fn lemma_failed_swap_restored(original: String, merged: String)
    ensures
        ({
            let evs = seq![
                SwapEvent::Start,
                SwapEvent::ProfileLoaded,
                SwapEvent::SettingsRead { original, merged },
                SwapEvent::WriteFailed,
                SwapEvent::Written,
            ];
            let (st, last, disk) = run(SwapState::Idle, SwapAction::LoadProfile, evs, original@);
            &&& disk == original@
            &&& st is Done
            &&& last == SwapAction::Finish(Err(SwapError::Io))
        }),
{
    reveal_with_fuel(run, 6);
}

} // verus!
