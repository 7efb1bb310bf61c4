//! The daemon's decisions around the state machine: the credentials gate, late audio after
//! a stray cancel, cancellation of in-flight transcriptions, the STT retry policy and the
//! output settings. The runtime performs the commands and feeds the events back.
use vstd::prelude::*;
use crate::state::{AppState, Command, CommandModel, Event, EventModel, StateModel, commands_model, is_toggle, next, transition};
use crate::text::{chars_of, decimal, parse_u64, parse_u64_chars, push_str, str_eq, trim, u64_to_string};

verus! {

/// The daemon's control state.
#[derive(Debug, Clone)]
pub struct AppCore {
    pub state: AppState,
    /// Duration of the last captured audio.
    pub last_duration_ms: u64,
    /// Capture was stopped and its audio has not arrived yet.
    pub awaiting_audio: bool,
    /// Bumped when a transcription is cancelled; results of an older generation are dropped.
    pub generation: u64,
}

/// What the runtime does after an event.
#[derive(Debug, Clone)]
pub struct EventOutcome {
    /// Commands to perform, in order.
    pub commands: Vec<Command>,
    /// Open the settings window after the commands (credentials are missing).
    pub open_settings: bool,
    /// The logged transition (from, to), when the state machine ran.
    pub transition: Option<(AppState, AppState)>,
    /// A take finished: the daemon left an active state for `Idle` or `Error`.
    pub done: bool,
}

pub open spec fn is_active_model(s: StateModel) -> bool {
    !(s is Idle)
}

/// The state the transition starts from: audio that arrives after a stray cancel, while it
/// was still awaited, is transcribed anyway.
pub open spec fn effective_state(s: StateModel, awaiting: bool, e: EventModel) -> StateModel {
    if s is Idle && awaiting && e is AudioCaptured { StateModel::Transcribing } else { s }
}

/// The notification shown when recording is asked for without credentials.
pub open spec fn credentials_notice() -> CommandModel {
    CommandModel::ShowNotification {
        title: "API key required"@,
        body: "Set your xAI API key in Settings before recording."@,
    }
}

impl AppCore {
    /// Idle, nothing awaited, generation 0.
    pub fn new() -> (c: AppCore)
        ensures
            c.state@ == StateModel::Idle,
            c.last_duration_ms == 0,
            !c.awaiting_audio,
            c.generation == 0,
    {
        AppCore { state: AppState::Idle, last_duration_ms: 0, awaiting_audio: false, generation: 0 }
    }

    /// Whether the credentials must be checked before `event` is handled (a toggle in `Idle`).
    pub fn needs_credential_check(&self, event: &Event) -> (b: bool)
        ensures
            b == (is_toggle(event@) && self.state@ is Idle),
    {
        match event {
            Event::Toggle | Event::ToggleTray => match self.state {
                AppState::Idle => true,
                _ => false,
            },
            _ => false,
        }
    }

    /// Handles one event. `credentials_ok` matters only when [`Self::needs_credential_check`]
    /// says so.
    pub fn process_event(&mut self, event: Event, credentials_ok: bool) -> (out: EventOutcome)
        ensures
            ({
                let s = old(self).state@;
                let e = event@;
                if is_toggle(e) && s is Idle && !credentials_ok {
                    &&& commands_model(out.commands@) == seq![credentials_notice()]
                    &&& out.open_settings
                    &&& out.transition is None
                    &&& !out.done
                    &&& final(self).state@ == s
                    &&& final(self).awaiting_audio == old(self).awaiting_audio
                    &&& final(self).generation == old(self).generation
                    &&& final(self).last_duration_ms == old(self).last_duration_ms
                } else {
                    let s0 = effective_state(s, old(self).awaiting_audio, e);
                    let (s1, cmds) = next(s0, e);
                    let cancelled = e is Cancel && s0 is Transcribing;
                    &&& commands_model(out.commands@) == cmds
                    &&& !out.open_settings
                    &&& out.transition matches Some(t) && t.0@ == s0 && t.1@ == s1
                    &&& out.done == (is_active_model(s0) && (s1 is Idle || s1 is Error))
                    &&& final(self).state@ == s1
                    &&& final(self).generation == (if cancelled {
                        bumped_generation(old(self).generation)
                    } else {
                        old(self).generation
                    })
                    &&& final(self).awaiting_audio == (if s1 is Idle {
                        false
                    } else if s1 is Transcribing && s0 is Recording {
                        true
                    } else if cancelled {
                        false
                    } else {
                        old(self).awaiting_audio
                    })
                    &&& final(self).last_duration_ms == match e {
                        EventModel::AudioCaptured { duration_ms, .. } => duration_ms,
                        _ => old(self).last_duration_ms,
                    }
                }
            }),
    {
        if self.needs_credential_check(&event) && !credentials_ok {
            let mut commands: Vec<Command> = Vec::new();
            commands.push(Command::ShowNotification {
                title: String::from_str("API key required"),
                body: String::from_str("Set your xAI API key in Settings before recording."),
            });
            assert(commands_model(commands@) =~= seq![credentials_notice()]);
            return EventOutcome { commands, open_settings: true, transition: None, done: false };
        }
        if let Event::AudioCaptured { duration_ms, .. } = &event {
            self.last_duration_ms = *duration_ms;
        }
        let late_audio = match (&self.state, &event) {
            (AppState::Idle, Event::AudioCaptured { .. }) => self.awaiting_audio,
            _ => false,
        };
        if late_audio {
            self.state = AppState::Transcribing;
        }
        let from = self.state.duplicate();
        let cancelled = match (&event, &from) {
            (Event::Cancel, AppState::Transcribing) => true,
            _ => false,
        };
        if cancelled {
            self.generation = if self.generation == u64::MAX { 0 } else { self.generation + 1 };
            self.awaiting_audio = false;
        }
        let (new_state, commands) = transition(&self.state, &event);
        let recording_to_transcribing = match (&new_state, &from) {
            (AppState::Transcribing, AppState::Recording) => true,
            _ => false,
        };
        let now_idle = match &new_state {
            AppState::Idle => true,
            _ => false,
        };
        let idle_or_error = match &new_state {
            AppState::Idle | AppState::Error { .. } => true,
            _ => false,
        };
        if recording_to_transcribing {
            self.awaiting_audio = true;
        }
        if now_idle {
            self.awaiting_audio = false;
        }
        let done = from.is_active() && idle_or_error;
        self.state = new_state.duplicate();
        EventOutcome { commands, open_settings: false, transition: Some((from, new_state)), done }
    }

    /// A transcription request starts: the awaited audio has arrived.
    pub fn begin_transcription(&mut self)
        ensures
            !final(self).awaiting_audio,
            final(self).state == old(self).state,
            final(self).generation == old(self).generation,
            final(self).last_duration_ms == old(self).last_duration_ms,
    {
        self.awaiting_audio = false;
    }
}

/// A transcription result is used only when no cancel happened since it was requested.
pub fn result_is_current(started_generation: u64, now_generation: u64) -> (b: bool)
    ensures
        b == (started_generation == now_generation),
{
    started_generation == now_generation
}

/// Number of STT retries after the first attempt (`COSMIC_SCRIBE_STT_RETRIES`, default 3).
pub fn stt_retries(setting: Option<&str>) -> (n: usize)
    ensures
        n == match crate::keyring::opt_view(setting) {
            Some(v) => match parse_u64(v) {
                Some(x) => if x <= usize::MAX { x as usize } else { 3 },
                None => 3,
            },
            None => 3,
        },
{
    match setting {
        Some(v) => match parse_u64_chars(&chars_of(v)) {
            Some(x) => if x <= usize::MAX as u64 { x as usize } else { 3 },
            None => 3,
        },
        None => 3,
    }
}

/// Pause before retry `attempt` (1 and up): 500 ms doubled per attempt.
pub fn retry_delay_ms(attempt: u32) -> (ms: u64)
    requires
        1 <= attempt <= 55,
    ensures
        ms == 500 * vstd::arithmetic::power2::pow2(attempt as nat),
{
    let mut ms: u64 = 500;
    let mut i: u32 = 0;
    proof { vstd::arithmetic::power2::lemma2_to64(); }
    while i < attempt
        invariant
            i <= attempt <= 55,
            ms == 500 * vstd::arithmetic::power2::pow2(i as nat),
        decreases attempt - i,
    {
        proof {
            vstd::arithmetic::power2::lemma_pow2_unfold((i + 1) as nat);
            if i + 1 < 55 {
                vstd::arithmetic::power2::lemma_pow2_strictly_increases((i + 1) as nat, 55);
            }
            vstd::arithmetic::power2::lemma2_to64_rest();
        }
        ms = ms * 2;
        i += 1;
    }
    ms
}

/// STT request timeout in milliseconds (`COSMIC_SCRIBE_STT_TIMEOUT_MS`, default 60 s).
pub fn stt_timeout_ms(setting: Option<&str>) -> (ms: u64)
    ensures
        ms == match crate::keyring::opt_view(setting) {
            Some(v) => match parse_u64(v) {
                Some(x) => x,
                None => 60000,
            },
            None => 60000,
        },
{
    match setting {
        Some(v) => match parse_u64_chars(&chars_of(v)) {
            Some(x) => x,
            None => 60000,
        },
        None => 60000,
    }
}

/// The error recorded when an attempt timed out (whole seconds of the timeout).
pub fn stt_timeout_message(timeout_ms: u64) -> (s: String)
    ensures
        s@ == "STT timed out after "@ + decimal((timeout_ms / 1000) as nat) + "s"@,
{
    let mut s = String::from_str("STT timed out after ");
    let n = u64_to_string(timeout_ms / 1000);
    push_str(&mut s, n.as_str());
    push_str(&mut s, "s");
    s
}

/// A transcript with only whitespace counts as no transcript.
pub fn transcript_usable(text: &str) -> (b: bool)
    ensures
        b == (trim(text@).len() > 0),
{
    !crate::keyring::trimmed(text).as_str().is_empty()
}

/// The error event after every attempt failed: no speech when the last attempt heard
/// nothing, otherwise the attempt count and the last error; nothing without an error.
pub fn stt_failure_message(last_err: &str, max_retries: usize) -> (r: Option<String>)
    ensures
        last_err@ == "empty transcript from STT"@ ==> (r matches Some(m) && m@ == "no speech detected"@),
        last_err@ != "empty transcript from STT"@ && last_err@.len() > 0 ==> (r matches Some(m)
            && m@ == "STT failed after "@ + decimal(max_retries as nat + 1) + " attempts: "@ + last_err@),
        last_err@.len() == 0 ==> r is None,
{
    proof {
        reveal_strlit("empty transcript from STT");
    }
    if str_eq(last_err, "empty transcript from STT") {
        return Some(String::from_str("no speech detected"));
    }
    if last_err.is_empty() {
        return None;
    }
    let mut m = String::from_str("STT failed after ");
    let n = crate::text::u128_to_string(max_retries as u128 + 1);
    push_str(&mut m, n.as_str());
    push_str(&mut m, " attempts: ");
    push_str(&mut m, last_err);
    Some(m)
}

/// Before a transcription the API key is read: a missing or empty key stops it with the log
/// line and the error event returned here; a present key gives `None`.
pub fn api_key_problem(key: &Result<String, String>) -> (r: Option<(String, String)>)
    ensures
        match key {
            Err(e) => r matches Some(p) && p.0@ == "missing API key: "@ + e@ && p.1@ == "API key not configured"@,
            Ok(k) => if k@.len() == 0 {
                r matches Some(p) && p.0@ == "API key is empty"@ && p.1@ == "API key not configured"@
            } else {
                r is None
            },
        },
{
    match key {
        Err(e) => {
            let mut l = String::from_str("missing API key: ");
            push_str(&mut l, e.as_str());
            Some((l, String::from_str("API key not configured")))
        },
        Ok(k) => {
            if k.as_str().is_empty() {
                Some((String::from_str("API key is empty"), String::from_str("API key not configured")))
            } else {
                None
            }
        },
    }
}

/// The failure event text of [`stt_failure_message`].
pub open spec fn failure_message(last_err: Seq<char>, max_retries: nat) -> Option<Seq<char>> {
    if last_err == "empty transcript from STT"@ {
        Some("no speech detected"@)
    } else if last_err.len() == 0 {
        None
    } else {
        Some("STT failed after "@ + decimal(max_retries + 1) + " attempts: "@ + last_err)
    }
}

/// What came of one transcription attempt.
#[derive(Debug, Clone)]
pub enum AttemptResult {
    /// The service answered with this transcript.
    Text(String),
    /// The request failed with this error.
    Failed(String),
    /// The request ran past the timeout.
    TimedOut,
}

/// What the runtime does next for a transcription.
#[derive(Debug, Clone, PartialEq, Eq)]
pub enum RetryAction {
    /// Wait this long, then run the next attempt and report its result.
    Attempt { delay_ms: u64 },
    /// Hand this transcript on.
    Deliver(String),
    /// Every attempt failed: send this error, if any.
    Fail(Option<String>),
    /// The transcription was cancelled: drop it silently.
    Stop,
}

/// Progress of the STT attempts for one capture: the first attempt and up to `max_retries`
/// more, each after a doubling pause, each bounded by `timeout_ms`.
#[derive(Debug, Clone)]
pub struct SttRetry {
    /// The attempt that runs next (0 for the first).
    pub attempt: usize,
    pub max_retries: usize,
    pub timeout_ms: u64,
    /// The error of the latest failed attempt (empty before any).
    pub last_err: String,
}

pub ghost struct SttRetryView {
    pub attempt: nat,
    pub max_retries: nat,
    pub timeout_ms: u64,
    pub last_err: Seq<char>,
}

pub ghost enum AttemptResultView {
    Text(Seq<char>),
    Failed(Seq<char>),
    TimedOut,
}

pub ghost enum RetryActionView {
    Attempt { delay_ms: nat },
    Deliver(Seq<char>),
    Fail(Option<Seq<char>>),
    Stop,
}

impl View for SttRetry {
    type V = SttRetryView;

    open spec fn view(&self) -> SttRetryView {
        SttRetryView {
            attempt: self.attempt as nat,
            max_retries: self.max_retries as nat,
            timeout_ms: self.timeout_ms,
            last_err: self.last_err@,
        }
    }
}

impl View for AttemptResult {
    type V = AttemptResultView;

    open spec fn view(&self) -> AttemptResultView {
        match self {
            AttemptResult::Text(t) => AttemptResultView::Text(t@),
            AttemptResult::Failed(e) => AttemptResultView::Failed(e@),
            AttemptResult::TimedOut => AttemptResultView::TimedOut,
        }
    }
}

impl View for RetryAction {
    type V = RetryActionView;

    open spec fn view(&self) -> RetryActionView {
        match self {
            RetryAction::Attempt { delay_ms } => RetryActionView::Attempt { delay_ms: *delay_ms as nat },
            RetryAction::Deliver(t) => RetryActionView::Deliver(t@),
            RetryAction::Fail(m) => RetryActionView::Fail(match m {
                Some(x) => Some(x@),
                None => None,
            }),
            RetryAction::Stop => RetryActionView::Stop,
        }
    }
}

pub open spec fn opt_result_view(r: Option<AttemptResult>) -> Option<AttemptResultView> {
    match r {
        Some(x) => Some(x@),
        None => None,
    }
}

/// The error an unsuccessful attempt leaves: an empty transcript, the request's error, or
/// the timeout.
pub open spec fn attempt_error(r: AttemptResultView, timeout_ms: u64) -> Seq<char> {
    match r {
        AttemptResultView::Text(_) => "empty transcript from STT"@,
        AttemptResultView::Failed(e) => e,
        AttemptResultView::TimedOut => "STT timed out after "@ + decimal((timeout_ms / 1000) as nat) + "s"@,
    }
}

/// The next step once no transcript was delivered: another attempt (after 500 ms doubled per
/// retry, none before the first) while attempts are left, else the failure event.
pub open spec fn retry_next(s: SttRetryView) -> (RetryActionView, SttRetryView) {
    if s.attempt > s.max_retries {
        (RetryActionView::Fail(failure_message(s.last_err, s.max_retries)), s)
    } else if s.attempt == 0 {
        (RetryActionView::Attempt { delay_ms: 0 }, s)
    } else {
        (RetryActionView::Attempt { delay_ms: 500 * vstd::arithmetic::power2::pow2(s.attempt) }, s)
    }
}

/// One step of the STT attempts, given whether the transcription is still current and the
/// result of the attempt just run (`None` before the first): stop once cancelled, deliver a
/// usable transcript, else record the error and go on.
pub open spec fn retry_step(s: SttRetryView, current: bool, result: Option<AttemptResultView>) -> (
    RetryActionView,
    SttRetryView,
) {
    if !current {
        (RetryActionView::Stop, s)
    } else {
        match result {
            None => retry_next(s),
            Some(r) => match r {
                AttemptResultView::Text(t) if trim(t).len() > 0 => (RetryActionView::Deliver(t), s),
                _ => retry_next(SttRetryView { attempt: s.attempt + 1, last_err: attempt_error(r, s.timeout_ms), ..s }),
            },
        }
    }
}

impl SttRetry {
    /// Before the first attempt.
    pub fn new(max_retries: usize, timeout_ms: u64) -> (r: SttRetry)
        ensures
            r@ == (SttRetryView { attempt: 0, max_retries: max_retries as nat, timeout_ms, last_err: Seq::empty() }),
    {
        SttRetry { attempt: 0, max_retries, timeout_ms, last_err: String::new() }
    }

    /// The attempts so far stay within the first one and the retries.
    pub open spec fn wf(&self) -> bool {
        self.attempt <= self.max_retries + 1
    }

    /// The pause before a retry fits in 64 bits: past retry 55 it would not.
    pub open spec fn delay_fits(&self) -> bool {
        self.attempt < 55 || self.max_retries <= 55
    }

    /// Takes the result of the attempt just run (`None` before the first) and says what to
    /// do next; `current` is false once the transcription was cancelled.
    pub fn step(&mut self, current: bool, result: Option<AttemptResult>) -> (a: RetryAction)
        requires
            old(self).wf(),
            old(self).delay_fits(),
            result is Some ==> old(self).attempt <= old(self).max_retries,
        ensures
            (a@, final(self)@) == retry_step(old(self)@, current, opt_result_view(result)),
            final(self).wf(),
            old(self).attempt <= final(self).attempt <= old(self).attempt + 1,
            final(self).max_retries == old(self).max_retries,
            a is Attempt ==> final(self).attempt <= final(self).max_retries,
    {
        if !current {
            return RetryAction::Stop;
        }
        match result {
            None => {},
            Some(AttemptResult::Text(t)) => {
                if transcript_usable(t.as_str()) {
                    return RetryAction::Deliver(t);
                }
                self.last_err = String::from_str("empty transcript from STT");
                self.attempt = self.attempt + 1;
            },
            Some(AttemptResult::Failed(e)) => {
                self.last_err = e;
                self.attempt = self.attempt + 1;
            },
            Some(AttemptResult::TimedOut) => {
                self.last_err = stt_timeout_message(self.timeout_ms);
                self.attempt = self.attempt + 1;
            },
        }
        if self.attempt > self.max_retries {
            let m = stt_failure_message(self.last_err.as_str(), self.max_retries);
            proof {
                reveal_strlit("empty transcript from STT");
            }
            RetryAction::Fail(m)
        } else if self.attempt == 0 {
            RetryAction::Attempt { delay_ms: 0 }
        } else {
            RetryAction::Attempt { delay_ms: retry_delay_ms(self.attempt as u32) }
        }
    }
}

/// Text output goes through `wtype` only in `wtype` mode (else clipboard only).
pub fn output_uses_wtype(mode: &str) -> (b: bool)
    ensures
        b == (mode@ == "wtype"@),
{
    str_eq(mode, "wtype")
}

/// A clipboard-only paste is announced with a notification.
pub fn announces_clipboard(mode: &str) -> (b: bool)
    ensures
        b == (mode@ == "clipboard"@),
{
    str_eq(mode, "clipboard")
}

/// The notification after a clipboard-only paste (title, body).
pub fn notify_clipboard_ready() -> (r: (&'static str, &'static str))
    ensures
        r.0@ == "Cosmic Scribe"@,
        r.1@ == "Transcript copied — paste into your field (Ctrl+V or Ctrl+Shift+V in terminal)"@,
{
    ("Cosmic Scribe", "Transcript copied — paste into your field (Ctrl+V or Ctrl+Shift+V in terminal)")
}

/// Recordings are saved as `<timestamp>_<duration>ms.raw` in the recordings directory.
pub fn recording_file_name(timestamp: &str, duration_ms: u64) -> (s: String)
    ensures
        s@ == timestamp@ + "_"@ + decimal(duration_ms as nat) + "ms.raw"@,
{
    let mut s = String::from_str(timestamp);
    push_str(&mut s, "_");
    let d = u64_to_string(duration_ms);
    push_str(&mut s, d.as_str());
    push_str(&mut s, "ms.raw");
    s
}

/// The recordings directory of the daemon (see [`crate::lifecycle::recordings_dir`]).
pub fn recordings_dir(override_dir: Option<&str>, data_dir: &str) -> (p: String)
    ensures
        p@ == match crate::keyring::opt_view(override_dir) {
            Some(d) => d,
            None => crate::paths::join_path(data_dir@, "recordings"@),
        },
{
    crate::lifecycle::recordings_dir(override_dir, data_dir)
}

} // verus!

verus! {

/// The generation after a cancel while transcribing (wrapping like an atomic counter).
pub open spec fn bumped_generation(g: u64) -> u64 {
    if g == u64::MAX { 0 } else { (g + 1) as u64 }
}

/// A cancel during transcription makes every in-flight result stale: the generation it was
/// requested under is no longer current.
pub proof fn lemma_cancel_invalidates_in_flight(g: u64)
    ensures
        bumped_generation(g) != g,
{
}

} // verus!
