//! The Recording view's decisions: which source can be recorded from, what
//! the transport buttons do in each state of a recording, and when the last
//! take and the discard confirmation are shown.
use vstd::prelude::*;

use crate::state::{RecordingSourceKind, RecordingState, RecordingTab, WavesPreviewer};

verus! {

/// The source actually used: the mixed source is not implemented and
/// falls back to the microphone, and off Windows only the microphone can
/// be recorded.
pub open spec fn normalized_source(source: RecordingSourceKind, windows: bool) -> RecordingSourceKind {
    if source == RecordingSourceKind::SystemAndMicrophone || (!windows && source
        != RecordingSourceKind::Microphone) {
        RecordingSourceKind::Microphone
    } else {
        source
    }
}

/// A take is being recorded, is paused, or is being written out: the
/// source and device cannot be changed then.
pub open spec fn transport_locked(state: RecordingState) -> bool {
    state is Recording || state is Paused || state is Finalizing
}

/// Nothing is being recorded (possibly after an error).
pub open spec fn recording_idle(state: RecordingState) -> bool {
    state is Idle || state is Error
}

/// What the record/pause toggle asks for.
#[derive(Clone, Copy, Debug, PartialEq, Eq, Structural)]
pub enum RecordCommand {
    Start,
    Pause,
    Resume,
    Nothing,
}

/// What the record/pause toggle does in each state.
pub open spec fn toggle_command(state: RecordingState) -> RecordCommand {
    match state {
        RecordingState::Recording => RecordCommand::Pause,
        RecordingState::Paused => RecordCommand::Resume,
        RecordingState::Idle => RecordCommand::Start,
        RecordingState::Error(_) => RecordCommand::Start,
        RecordingState::Finalizing => RecordCommand::Nothing,
    }
}

/// The source the view records from (see `normalized_source`).
pub fn normalized_recording_source(source: RecordingSourceKind, windows: bool) -> (r:
    RecordingSourceKind)
    ensures
        r == normalized_source(source, windows),
        r != RecordingSourceKind::SystemAndMicrophone,
        !windows ==> r == RecordingSourceKind::Microphone,
{
    match source {
        RecordingSourceKind::SystemAndMicrophone => RecordingSourceKind::Microphone,
        RecordingSourceKind::System => if windows {
            RecordingSourceKind::System
        } else {
            RecordingSourceKind::Microphone
        },
        RecordingSourceKind::Microphone => RecordingSourceKind::Microphone,
    }
}

/// Whether the transport is locked in `state`.
pub fn recording_transport_locked(state: &RecordingState) -> (locked: bool)
    ensures
        locked == transport_locked(*state),
{
    match state {
        RecordingState::Recording | RecordingState::Paused | RecordingState::Finalizing => true,
        _ => false,
    }
}

/// What the record/pause toggle does in `state`.
pub fn record_toggle_command(state: &RecordingState) -> (command: RecordCommand)
    ensures
        command == toggle_command(*state),
{
    match state {
        RecordingState::Recording => RecordCommand::Pause,
        RecordingState::Paused => RecordCommand::Resume,
        RecordingState::Idle => RecordCommand::Start,
        RecordingState::Error(_) => RecordCommand::Start,
        RecordingState::Finalizing => RecordCommand::Nothing,
    }
}

/// Stop and Discard act on a take that is being recorded or is paused.
pub fn recording_can_stop(state: &RecordingState) -> (can: bool)
    ensures
        can == (state is Recording || state is Paused),
{
    match state {
        RecordingState::Recording | RecordingState::Paused => true,
        _ => false,
    }
}

/// The last take's card is shown when there is one and no take is being
/// recorded or written out.
pub fn show_last_take(tab: &RecordingTab) -> (show: bool)
    ensures
        show == (tab.last_recording_path is Some && !(tab.state is Recording) && !(
        tab.state is Finalizing)),
{
    let busy = match tab.state {
        RecordingState::Recording | RecordingState::Finalizing => true,
        _ => false,
    };
    tab.last_recording_path.is_some() && !busy
}

/// `after` is `before` with at most the Recording view's state changed.
pub open spec fn only_recording_changed(before: WavesPreviewer, after: WavesPreviewer) -> bool {
    after == (WavesPreviewer { recording_tab: after.recording_tab, ..before })
}

impl WavesPreviewer {
    /// A click on a source button (`Microphone`; `System` on Windows): taken
    /// unless the transport is locked, and then normalized as every frame
    /// does.
    pub fn choose_recording_source(&mut self, picked: RecordingSourceKind, windows: bool)
        ensures
            only_recording_changed(*old(self), *final(self)),
            final(self).recording_tab.source == normalized_source(
                if transport_locked(old(self).recording_tab.state) {
                    old(self).recording_tab.source
                } else {
                    picked
                },
                windows,
            ),
            final(self).recording_tab.state == old(self).recording_tab.state,
            final(self).recording_tab.selected_mic_id == old(self).recording_tab.selected_mic_id,
            final(self).recording_tab.confirm_discard == old(self).recording_tab.confirm_discard,
            final(self).recording_tab.last_recording_path == old(
                self,
            ).recording_tab.last_recording_path,
    {
        let locked = recording_transport_locked(&self.recording_tab.state);
        let wanted = if locked { self.recording_tab.source } else { picked };
        self.recording_tab.source = normalized_recording_source(wanted, windows);
    }

    /// The Discard buttons open the confirmation; Cancel or closing it
    /// closes it again.
    pub fn set_recording_discard_prompt(&mut self, open: bool)
        ensures
            only_recording_changed(*old(self), *final(self)),
            final(self).recording_tab.confirm_discard == open,
            final(self).recording_tab.state == old(self).recording_tab.state,
            final(self).recording_tab.source == old(self).recording_tab.source,
            final(self).recording_tab.selected_mic_id == old(self).recording_tab.selected_mic_id,
            final(self).recording_tab.last_recording_path == old(
                self,
            ).recording_tab.last_recording_path,
    {
        self.recording_tab.confirm_discard = open;
    }
}

/// The toggle starts a take only when nothing is being recorded, pauses
/// only a running take, resumes only a paused one, and does nothing while
/// a take is written out.
pub proof fn lemma_toggle_follows_state(state: RecordingState)
    ensures
        (toggle_command(state) == RecordCommand::Start) == recording_idle(state),
        (toggle_command(state) == RecordCommand::Pause) == (state is Recording),
        (toggle_command(state) == RecordCommand::Resume) == (state is Paused),
        (toggle_command(state) == RecordCommand::Nothing) == (state is Finalizing),
{
}

/// Normalizing a source twice changes nothing more.
pub proof fn lemma_normalized_source_idempotent(source: RecordingSourceKind, windows: bool)
    ensures
        normalized_source(normalized_source(source, windows), windows) == normalized_source(
            source,
            windows,
        ),
{
}

} // verus!
