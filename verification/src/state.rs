//! The dictation state machine: no I/O, deterministic transitions that yield
//! the commands the runtime must perform.
use vstd::prelude::*;
use crate::text::concat;

verus! {

#[derive(Debug, Clone, PartialEq, Eq)]
pub enum AppState {
    Idle,
    Recording,
    Transcribing,
    Inserting,
    Error { message: String, recoverable: bool },
}

#[derive(Debug, Clone, PartialEq)]
pub enum Event {
    Toggle,
    ToggleTray,
    Cancel,
    AudioCaptured { bytes: Vec<u8>, duration_ms: u64 },
    TranscriptReady(String),
    TextInserted,
    Error(String),
}

#[derive(Debug, Clone)]
pub enum Command {
    StartCapture,
    StopCapture,
    Transcribe(Vec<u8>),
    CopyToClipboard(String),
    InjectText(String),
    SetTrayState(String),
    ShowNotification { title: String, body: String },
    OpenHistory,
    Quit,
}

/// Mathematical value of an [`AppState`].
pub enum StateModel {
    Idle,
    Recording,
    Transcribing,
    Inserting,
    Error { message: Seq<char>, recoverable: bool },
}

/// Mathematical value of an [`Event`].
pub enum EventModel {
    Toggle,
    ToggleTray,
    Cancel,
    AudioCaptured { bytes: Seq<u8>, duration_ms: u64 },
    TranscriptReady(Seq<char>),
    TextInserted,
    Error(Seq<char>),
}

/// Mathematical value of a [`Command`].
pub enum CommandModel {
    StartCapture,
    StopCapture,
    Transcribe(Seq<u8>),
    CopyToClipboard(Seq<char>),
    InjectText(Seq<char>),
    SetTrayState(Seq<char>),
    ShowNotification { title: Seq<char>, body: Seq<char> },
    OpenHistory,
    Quit,
}

impl View for AppState {
    type V = StateModel;

    open spec fn view(&self) -> StateModel {
        match self {
            AppState::Idle => StateModel::Idle,
            AppState::Recording => StateModel::Recording,
            AppState::Transcribing => StateModel::Transcribing,
            AppState::Inserting => StateModel::Inserting,
            AppState::Error { message, recoverable } => StateModel::Error {
                message: message@,
                recoverable: *recoverable,
            },
        }
    }
}

impl View for Event {
    type V = EventModel;

    open spec fn view(&self) -> EventModel {
        match self {
            Event::Toggle => EventModel::Toggle,
            Event::ToggleTray => EventModel::ToggleTray,
            Event::Cancel => EventModel::Cancel,
            Event::AudioCaptured { bytes, duration_ms } => EventModel::AudioCaptured {
                bytes: bytes@,
                duration_ms: *duration_ms,
            },
            Event::TranscriptReady(t) => EventModel::TranscriptReady(t@),
            Event::TextInserted => EventModel::TextInserted,
            Event::Error(m) => EventModel::Error(m@),
        }
    }
}

impl View for Command {
    type V = CommandModel;

    open spec fn view(&self) -> CommandModel {
        match self {
            Command::StartCapture => CommandModel::StartCapture,
            Command::StopCapture => CommandModel::StopCapture,
            Command::Transcribe(b) => CommandModel::Transcribe(b@),
            Command::CopyToClipboard(t) => CommandModel::CopyToClipboard(t@),
            Command::InjectText(t) => CommandModel::InjectText(t@),
            Command::SetTrayState(s) => CommandModel::SetTrayState(s@),
            Command::ShowNotification { title, body } => CommandModel::ShowNotification {
                title: title@,
                body: body@,
            },
            Command::OpenHistory => CommandModel::OpenHistory,
            Command::Quit => CommandModel::Quit,
        }
    }
}

/// The models of a list of commands, in order.
pub open spec fn commands_model(cmds: Seq<Command>) -> Seq<CommandModel> {
    cmds.map_values(|c: Command| c@)
}

pub open spec fn tray(name: Seq<char>) -> CommandModel {
    CommandModel::SetTrayState(name)
}

pub open spec fn is_toggle(e: EventModel) -> bool {
    e is Toggle || e is ToggleTray
}

/// The transition table: next state and the commands to run, for each state and event.
pub open spec fn next(s: StateModel, e: EventModel) -> (StateModel, Seq<CommandModel>) {
    match s {
        StateModel::Idle => if is_toggle(e) {
            (StateModel::Recording, seq![CommandModel::StartCapture, tray("recording"@)])
        } else {
            (StateModel::Idle, seq![])
        },
        StateModel::Recording => match e {
            EventModel::Toggle | EventModel::ToggleTray => (
                StateModel::Transcribing,
                seq![CommandModel::StopCapture, tray("transcribing"@)],
            ),
            EventModel::Cancel => (StateModel::Idle, seq![CommandModel::StopCapture, tray("idle"@)]),
            EventModel::Error(msg) => (
                StateModel::Idle,
                seq![
                    CommandModel::StopCapture,
                    tray("idle"@),
                    CommandModel::ShowNotification { title: "Recording failed"@, body: msg },
                ],
            ),
            _ => (StateModel::Recording, seq![]),
        },
        StateModel::Transcribing => match e {
            EventModel::Toggle | EventModel::ToggleTray => (StateModel::Transcribing, seq![]),
            EventModel::Cancel => (StateModel::Idle, seq![tray("idle"@)]),
            EventModel::AudioCaptured { bytes, .. } => (
                StateModel::Transcribing,
                seq![CommandModel::Transcribe(bytes)],
            ),
            EventModel::TranscriptReady(t) => (
                StateModel::Inserting,
                seq![
                    CommandModel::CopyToClipboard(t),
                    CommandModel::InjectText(t),
                    tray("inserting"@),
                ],
            ),
            EventModel::Error(msg) => (
                StateModel::Idle,
                seq![
                    tray("idle"@),
                    CommandModel::ShowNotification { title: "Transcription failed"@, body: msg },
                ],
            ),
            _ => (StateModel::Transcribing, seq![]),
        },
        StateModel::Inserting => match e {
            EventModel::Toggle | EventModel::ToggleTray | EventModel::Cancel
            | EventModel::TextInserted => (StateModel::Idle, seq![tray("idle"@)]),
            EventModel::Error(msg) => (
                StateModel::Idle,
                seq![
                    tray("idle"@),
                    CommandModel::ShowNotification {
                        title: "Insertion failed"@,
                        body: "Text was copied but injection failed: "@ + msg,
                    },
                ],
            ),
            _ => (StateModel::Inserting, seq![]),
        },
        StateModel::Error { message, recoverable } => match e {
            EventModel::Toggle | EventModel::ToggleTray | EventModel::Cancel => (
                StateModel::Idle,
                seq![tray("idle"@)],
            ),
            EventModel::Error(msg) => (
                StateModel::Error { message: msg, recoverable: true },
                seq![tray("error"@)],
            ),
            _ => (StateModel::Error { message, recoverable }, seq![]),
        },
    }
}

fn owned(s: &str) -> (r: String)
    ensures
        r@ == s@,
{
    String::from_str(s)
}

fn set_tray(name: &str) -> (c: Command)
    ensures
        c@ == tray(name@),
{
    Command::SetTrayState(owned(name))
}

impl AppState {
    pub fn can_cancel(&self) -> (b: bool)
        ensures
            b <==> (self is Recording || self is Transcribing || self is Inserting),
    {
        match self {
            AppState::Recording | AppState::Transcribing | AppState::Inserting => true,
            _ => false,
        }
    }

    pub fn is_active(&self) -> (b: bool)
        ensures
            b <==> !(self is Idle),
    {
        match self {
            AppState::Idle => false,
            _ => true,
        }
    }

    /// A copy of this state.
    pub fn duplicate(&self) -> (r: AppState)
        ensures
            r@ == self@,
    {
        match self {
            AppState::Idle => AppState::Idle,
            AppState::Recording => AppState::Recording,
            AppState::Transcribing => AppState::Transcribing,
            AppState::Inserting => AppState::Inserting,
            AppState::Error { message, recoverable } => AppState::Error {
                message: message.clone(),
                recoverable: *recoverable,
            },
        }
    }

    /// The variant's name (`Idle`, `Recording`, ..., `Error`), as shown in logs.
    pub fn label(&self) -> (s: &'static str)
        ensures
            s@ == state_label(self@),
    {
        match self {
            AppState::Idle => "Idle",
            AppState::Recording => "Recording",
            AppState::Transcribing => "Transcribing",
            AppState::Inserting => "Inserting",
            AppState::Error { .. } => "Error",
        }
    }
}

pub open spec fn state_label(s: StateModel) -> Seq<char> {
    match s {
        StateModel::Idle => "Idle"@,
        StateModel::Recording => "Recording"@,
        StateModel::Transcribing => "Transcribing"@,
        StateModel::Inserting => "Inserting"@,
        StateModel::Error { .. } => "Error"@,
    }
}

/// One step of the state machine.
pub fn transition(state: &AppState, event: &Event) -> (r: (AppState, Vec<Command>))
    ensures
        (r.0@, commands_model(r.1@)) == next(state@, event@),
{
    let r: (AppState, Vec<Command>) = match state {
        AppState::Idle => match event {
            Event::Toggle | Event::ToggleTray => (
                AppState::Recording,
                vec![Command::StartCapture, set_tray("recording")],
            ),
            _ => (AppState::Idle, vec![]),
        },
        AppState::Recording => match event {
            Event::Toggle | Event::ToggleTray => (
                AppState::Transcribing,
                vec![Command::StopCapture, set_tray("transcribing")],
            ),
            Event::Cancel => (AppState::Idle, vec![Command::StopCapture, set_tray("idle")]),
            Event::Error(msg) => (
                AppState::Idle,
                vec![
                    Command::StopCapture,
                    set_tray("idle"),
                    Command::ShowNotification {
                        title: owned("Recording failed"),
                        body: msg.clone(),
                    },
                ],
            ),
            _ => (AppState::Recording, vec![]),
        },
        AppState::Transcribing => match event {
            Event::Toggle | Event::ToggleTray => (AppState::Transcribing, vec![]),
            Event::Cancel => (AppState::Idle, vec![set_tray("idle")]),
            Event::AudioCaptured { bytes, .. } => (
                AppState::Transcribing,
                vec![Command::Transcribe(bytes.clone())],
            ),
            Event::TranscriptReady(text) => (
                AppState::Inserting,
                vec![
                    Command::CopyToClipboard(text.clone()),
                    Command::InjectText(text.clone()),
                    set_tray("inserting"),
                ],
            ),
            Event::Error(msg) => (
                AppState::Idle,
                vec![
                    set_tray("idle"),
                    Command::ShowNotification {
                        title: owned("Transcription failed"),
                        body: msg.clone(),
                    },
                ],
            ),
            _ => (AppState::Transcribing, vec![]),
        },
        AppState::Inserting => match event {
            Event::Toggle | Event::ToggleTray | Event::Cancel | Event::TextInserted => (
                AppState::Idle,
                vec![set_tray("idle")],
            ),
            Event::Error(msg) => (
                AppState::Idle,
                vec![
                    set_tray("idle"),
                    Command::ShowNotification {
                        title: owned("Insertion failed"),
                        body: concat(owned("Text was copied but injection failed: "), msg.as_str()),
                    },
                ],
            ),
            _ => (AppState::Inserting, vec![]),
        },
        AppState::Error { message, recoverable } => match event {
            Event::Toggle | Event::ToggleTray | Event::Cancel => (
                AppState::Idle,
                vec![set_tray("idle")],
            ),
            Event::Error(msg) => (
                AppState::Error { message: msg.clone(), recoverable: true },
                vec![set_tray("error")],
            ),
            _ => (AppState::Error { message: message.clone(), recoverable: *recoverable }, vec![]),
        },
    };
    assert(commands_model(r.1@) =~= next(state@, event@).1);
    r
}

} // verus!

verus! {

/// Name the tray shows for a state.
pub open spec fn tray_name(s: StateModel) -> Seq<char> {
    match s {
        StateModel::Idle => "idle"@,
        StateModel::Recording => "recording"@,
        StateModel::Transcribing => "transcribing"@,
        StateModel::Inserting => "inserting"@,
        StateModel::Error { .. } => "error"@,
    }
}

pub open spec fn same_phase(a: StateModel, b: StateModel) -> bool {
    match (a, b) {
        (StateModel::Idle, StateModel::Idle) => true,
        (StateModel::Recording, StateModel::Recording) => true,
        (StateModel::Transcribing, StateModel::Transcribing) => true,
        (StateModel::Inserting, StateModel::Inserting) => true,
        (StateModel::Error { .. }, StateModel::Error { .. }) => true,
        _ => false,
    }
}

pub open spec fn puts_text_out(c: CommandModel) -> bool {
    c is InjectText || c is CopyToClipboard
}

/// Cancel, from any state, ends in `Idle` and never captures, transcribes or pastes.
pub proof fn lemma_cancel_always_idle_and_pastes_nothing(s: StateModel)
    ensures
        next(s, EventModel::Cancel).0 is Idle,
        forall|i: int| 0 <= i < next(s, EventModel::Cancel).1.len() ==> {
            let c = #[trigger] next(s, EventModel::Cancel).1[i];
            !puts_text_out(c) && !(c is Transcribe) && !(c is StartCapture)
        },
{
}

/// Text reaches the clipboard or the focused field only when a transcript arrives
/// while transcribing, and then it is exactly that transcript, copied before it is typed.
pub proof fn lemma_text_output_only_from_transcript(s: StateModel, e: EventModel)
    ensures
        (exists|i: int| 0 <= i < next(s, e).1.len() && puts_text_out(#[trigger] next(s, e).1[i]))
            <==> (s is Transcribing && e is TranscriptReady),
        (s is Transcribing && e is TranscriptReady) ==> {
            let t = e->TranscriptReady_0;
            &&& next(s, e).1[0] == CommandModel::CopyToClipboard(t)
            &&& next(s, e).1[1] == CommandModel::InjectText(t)
        },
{
    if s is Transcribing && e is TranscriptReady {
        assert(puts_text_out(next(s, e).1[0]));
    }
}

/// Whenever the phase changes, the tray is told the new phase's name.
pub proof fn lemma_tray_follows_phase(s: StateModel, e: EventModel)
    ensures
        !same_phase(s, next(s, e).0) ==> exists|i: int|
            0 <= i < next(s, e).1.len() && #[trigger] next(s, e).1[i] == tray(
                tray_name(next(s, e).0),
            ),
{
    let (n, cmds) = next(s, e);
    if !same_phase(s, n) {
        if s is Idle {
            assert(cmds[1] == tray(tray_name(n)));
        } else if s is Recording {
            assert(cmds[1] == tray(tray_name(n)));
        } else if s is Transcribing {
            if e is TranscriptReady {
                assert(cmds[2] == tray(tray_name(n)));
            } else {
                assert(cmds[0] == tray(tray_name(n)));
            }
        } else {
            assert(cmds[0] == tray(tray_name(n)));
        }
    }
}

/// Leaving `Recording` always stops the capture; capture only starts from `Idle` on a toggle.
pub proof fn lemma_capture_bracketed(s: StateModel, e: EventModel)
    ensures
        (s is Recording && !(next(s, e).0 is Recording)) ==> next(s, e).1[0]
            == CommandModel::StopCapture,
        (exists|i: int|
            0 <= i < next(s, e).1.len() && #[trigger] next(s, e).1[i] == CommandModel::StartCapture)
            <==> (s is Idle && is_toggle(e)),
        (s is Idle && is_toggle(e)) ==> next(s, e).0 is Recording,
{
    if s is Idle && is_toggle(e) {
        assert(next(s, e).1[0] == CommandModel::StartCapture);
    }
}

/// Toggles are ignored while speech is being transcribed.
pub proof fn lemma_transcribing_ignores_toggle(e: EventModel)
    requires
        is_toggle(e),
    ensures
        next(StateModel::Transcribing, e) == (StateModel::Transcribing, Seq::<CommandModel>::empty()),
{
    assert(next(StateModel::Transcribing, e).1 =~= Seq::<CommandModel>::empty());
}

/// The error phase is only ever re-entered from itself: from any other state no event leads there.
pub proof fn lemma_error_not_entered(s: StateModel, e: EventModel)
    requires
        !(s is Error),
    ensures
        !(next(s, e).0 is Error),
{
}

/// In `Idle` only a toggle does anything; every other event is a no-op.
pub proof fn lemma_idle_only_toggles(e: EventModel)
    requires
        !is_toggle(e),
    ensures
        next(StateModel::Idle, e) == (StateModel::Idle, Seq::<CommandModel>::empty()),
{
    assert(next(StateModel::Idle, e).1 =~= Seq::<CommandModel>::empty());
}

} // verus!
