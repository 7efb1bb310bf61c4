//! The History / Settings window's behaviour without widgets: what each user action or
//! finished request does to the view state, and which work it starts. The window draws
//! from these fields and performs the returned tasks, feeding their outcome back.
use vstd::prelude::*;
use crate::api::{opt_str, ApiError, AppConfig, ConfigUpdate, HistoryEntry};
use crate::text::{push_str, str_eq, trim};
use crate::ux::{history_has_more_after_page, settings_is_dirty, settings_save_visible, should_save_edit, strip_edit_end, HISTORY_PAGE_SIZE};

verus! {

/// Work started by the window, performed in order.
#[derive(Debug, Clone, PartialEq, Eq)]
pub enum BrowserTask {
    /// Fetch history rows: from the top (a probe of `limit + 1` rows) or a further page.
    LoadHistory { offset: usize, limit: usize },
    /// Load a recording's detail.
    LoadDetail(String),
    /// Delete a recording's files; the outcome comes back to [`HistoryBrowser::deleted`].
    DeleteRecording(String),
    /// Store an edited transcript as a new version; the outcome comes back to
    /// [`HistoryBrowser::edit_saved`].
    SaveEdit { id: String, text: String },
    /// Transcribe a stored recording again.
    Transcribe(String),
    /// Show a short notice.
    Toast(String),
    /// Stop playback and clear its progress.
    ResetAudio,
    /// Put this text into the transcript viewer and editor.
    ShowText(String),
    /// Copy this text to the clipboard.
    CopyText(String),
    /// Clear the "Copied" flash of this control after a moment.
    ClearFlashLater(String),
    /// Reload the settings.
    LoadSettings,
    /// Reload the settings after giving a browser sign-in time to finish.
    RefreshAuthLater,
    /// Take the "Saved" label off the Save button after a moment.
    ClearSavedLater,
    /// Refresh the window title.
    UpdateTitle,
}

pub enum TaskModel {
    LoadHistory { offset: usize, limit: usize },
    LoadDetail(Seq<char>),
    DeleteRecording(Seq<char>),
    SaveEdit { id: Seq<char>, text: Seq<char> },
    Transcribe(Seq<char>),
    Toast(Seq<char>),
    ResetAudio,
    ShowText(Seq<char>),
    CopyText(Seq<char>),
    ClearFlashLater(Seq<char>),
    LoadSettings,
    RefreshAuthLater,
    ClearSavedLater,
    UpdateTitle,
}

impl View for BrowserTask {
    type V = TaskModel;

    open spec fn view(&self) -> TaskModel {
        match self {
            BrowserTask::LoadHistory { offset, limit } => TaskModel::LoadHistory { offset: *offset, limit: *limit },
            BrowserTask::LoadDetail(s) => TaskModel::LoadDetail(s@),
            BrowserTask::DeleteRecording(s) => TaskModel::DeleteRecording(s@),
            BrowserTask::SaveEdit { id, text } => TaskModel::SaveEdit { id: id@, text: text@ },
            BrowserTask::Transcribe(s) => TaskModel::Transcribe(s@),
            BrowserTask::Toast(s) => TaskModel::Toast(s@),
            BrowserTask::ResetAudio => TaskModel::ResetAudio,
            BrowserTask::ShowText(s) => TaskModel::ShowText(s@),
            BrowserTask::CopyText(s) => TaskModel::CopyText(s@),
            BrowserTask::ClearFlashLater(s) => TaskModel::ClearFlashLater(s@),
            BrowserTask::LoadSettings => TaskModel::LoadSettings,
            BrowserTask::RefreshAuthLater => TaskModel::RefreshAuthLater,
            BrowserTask::ClearSavedLater => TaskModel::ClearSavedLater,
            BrowserTask::UpdateTitle => TaskModel::UpdateTitle,
        }
    }
}

pub open spec fn tasks_view(v: Seq<BrowserTask>) -> Seq<TaskModel> {
    Seq::new(v.len(), |i: int| v[i]@)
}

/// A loaded recording: its transcript and the texts of its stored versions, oldest first.
#[derive(Debug, Clone)]
pub struct DetailText {
    pub text: String,
    pub versions: Vec<String>,
}

pub open spec fn detail_view(d: Option<DetailText>) -> Option<(Seq<char>, Seq<Seq<char>>)> {
    match d {
        Some(x) => Some((x.text@, Seq::new(x.versions@.len(), |i: int| x.versions@[i]@))),
        None => None,
    }
}

/// The text shown for version `active` (0: the transcript itself; `k`: the `k`-th stored
/// version, falling back to the transcript when there is none); empty without a detail.
pub open spec fn version_text_of(detail: Option<(Seq<char>, Seq<Seq<char>>)>, active: nat) -> Seq<char> {
    match detail {
        None => seq![],
        Some(d) => if active == 0 || active > d.1.len() { d.0 } else { d.1[active - 1] },
    }
}

/// The entries without those of recording `file`, in order.
pub open spec fn without_file(s: Seq<HistoryEntry>, file: Seq<char>) -> Seq<HistoryEntry>
    decreases s.len(),
{
    if s.len() == 0 {
        s
    } else {
        let rest = without_file(s.drop_last(), file);
        if s.last().file@ == file { rest } else { rest.push(s.last()) }
    }
}

/// After a deletion no row of the deleted recording remains, and every row of another
/// recording is still there.
pub proof fn lemma_delete_removes_exactly_file(s: Seq<HistoryEntry>, file: Seq<char>)
    ensures
        forall|i: int| 0 <= i < without_file(s, file).len() ==> (#[trigger] without_file(s, file)[i]).file@ != file,
        forall|i: int| 0 <= i < s.len() && (#[trigger] s[i]).file@ != file ==> without_file(s, file).contains(s[i]),
    decreases s.len(),
{
    if s.len() > 0 {
        let rest = s.drop_last();
        lemma_delete_removes_exactly_file(rest, file);
        assert forall|i: int| 0 <= i < s.len() && (#[trigger] s[i]).file@ != file implies without_file(s, file).contains(s[i]) by {
            if i < s.len() - 1 {
                assert(rest[i] == s[i]);
                let w = choose|w: int| 0 <= w < without_file(rest, file).len() && without_file(rest, file)[w] == s[i];
                assert(without_file(s, file)[w] == s[i]);
            } else {
                assert(without_file(s, file).last() == s[i]);
            }
        }
    }
}

/// The history list and the recording detail of the window.
#[derive(Debug, Clone)]
pub struct HistoryBrowser {
    /// The Settings page is active (else History).
    pub on_settings: bool,
    pub entries: Vec<HistoryEntry>,
    /// Rows loaded so far (where the next page starts).
    pub offset: usize,
    pub has_more: bool,
    pub loading: bool,
    pub loading_more: bool,
    /// Recording awaiting delete confirmation.
    pub confirming_delete: Option<String>,
    /// Recording whose detail is open.
    pub detail_id: Option<String>,
    pub detail: Option<DetailText>,
    pub detail_error: Option<String>,
    pub active_version: usize,
    pub editing: bool,
    pub transcribing: bool,
    /// Control showing the brief "Copied" label.
    pub copied_flash: Option<String>,
}

impl HistoryBrowser {
    /// The window at start: History or Settings, history loading from the top.
    pub fn new(open_settings: bool) -> (r: (HistoryBrowser, Vec<BrowserTask>))
        ensures
            r.0.on_settings == open_settings,
            r.0.entries@.len() == 0,
            r.0.offset == 0,
            r.0.has_more,
            r.0.loading,
            !r.0.loading_more,
            r.0.confirming_delete is None,
            r.0.detail_id is None,
            r.0.detail is None,
            r.0.detail_error is None,
            r.0.active_version == 0,
            !r.0.editing,
            !r.0.transcribing,
            r.0.copied_flash is None,
            tasks_view(r.1@) == seq![
                TaskModel::LoadHistory { offset: 0, limit: HISTORY_PAGE_SIZE },
                TaskModel::LoadSettings,
                TaskModel::UpdateTitle,
            ],
    {
        let b = HistoryBrowser {
            on_settings: open_settings,
            entries: Vec::new(),
            offset: 0,
            has_more: true,
            loading: true,
            loading_more: false,
            confirming_delete: None,
            detail_id: None,
            detail: None,
            detail_error: None,
            active_version: 0,
            editing: false,
            transcribing: false,
            copied_flash: None,
        };
        let mut t: Vec<BrowserTask> = Vec::new();
        t.push(BrowserTask::LoadHistory { offset: 0, limit: HISTORY_PAGE_SIZE });
        t.push(BrowserTask::LoadSettings);
        t.push(BrowserTask::UpdateTitle);
        assert(tasks_view(t@) =~= seq![
            TaskModel::LoadHistory { offset: 0, limit: HISTORY_PAGE_SIZE },
            TaskModel::LoadSettings,
            TaskModel::UpdateTitle,
        ]);
        (b, t)
    }

    /// The history list is the visible page (no detail open, History active).
    pub fn on_history_page(&self) -> (b: bool)
        ensures
            b == (!self.on_settings && self.detail_id is None),
    {
        !self.on_settings && self.detail_id.is_none()
    }

    /// The text of the selected version.
    pub fn version_text(&self) -> (s: String)
        ensures
            s@ == version_text_of(detail_view(self.detail), self.active_version as nat),
    {
        match &self.detail {
            None => String::new(),
            Some(d) => {
                if self.active_version == 0 || self.active_version > d.versions.len() {
                    d.text.clone()
                } else {
                    d.versions[self.active_version - 1].clone()
                }
            },
        }
    }

    /// The window title's page name: `Recording` with a detail open, else the active page.
    pub fn page_title(&self) -> (s: &'static str)
        ensures
            s@ == if self.detail_id is Some { "Recording"@ } else if self.on_settings { "Settings"@ } else { "History"@ },
    {
        if self.detail_id.is_some() {
            "Recording"
        } else if self.on_settings {
            "Settings"
        } else {
            "History"
        }
    }

    /// A page was picked in the navigation: any open detail closes.
    pub fn nav_select(&mut self, settings: bool) -> (t: Vec<BrowserTask>)
        ensures
            final(self).on_settings == settings,
            final(self).detail_id is None,
            final(self).detail is None,
            final(self).detail_error is None,
            final(self).confirming_delete is None,
            !final(self).editing,
            final(self).entries@ == old(self).entries@,
            final(self).offset == old(self).offset,
            final(self).has_more == old(self).has_more,
            tasks_view(t@) == if settings {
                seq![TaskModel::ResetAudio, TaskModel::LoadSettings, TaskModel::UpdateTitle]
            } else {
                seq![TaskModel::ResetAudio, TaskModel::UpdateTitle]
            },
    {
        self.on_settings = settings;
        self.detail_id = None;
        self.detail = None;
        self.detail_error = None;
        self.confirming_delete = None;
        self.editing = false;
        let mut t: Vec<BrowserTask> = Vec::new();
        t.push(BrowserTask::ResetAudio);
        if settings {
            t.push(BrowserTask::LoadSettings);
        }
        t.push(BrowserTask::UpdateTitle);
        proof {
            if settings {
                assert(tasks_view(t@) =~= seq![TaskModel::ResetAudio, TaskModel::LoadSettings, TaskModel::UpdateTitle]);
            } else {
                assert(tasks_view(t@) =~= seq![TaskModel::ResetAudio, TaskModel::UpdateTitle]);
            }
        }
        t
    }

    /// A load from the top finished: the list is replaced.
    pub fn history_loaded(&mut self, entries: Vec<HistoryEntry>, has_more: bool)
        ensures
            !final(self).loading,
            final(self).offset == entries@.len(),
            final(self).has_more == has_more,
            final(self).entries@ == entries@,
            final(self).loading_more == old(self).loading_more,
            final(self).detail_id == old(self).detail_id,
    {
        self.loading = false;
        self.offset = entries.len();
        self.has_more = has_more;
        self.entries = entries;
    }

    /// A further page arrived: it is appended; an empty or short page ends the list.
    pub fn history_more_loaded(&mut self, entries: Vec<HistoryEntry>)
        requires
            old(self).offset + entries@.len() <= usize::MAX,
        ensures
            !final(self).loading_more,
            final(self).offset == old(self).offset + entries@.len(),
            final(self).has_more == (entries@.len() >= HISTORY_PAGE_SIZE),
            final(self).entries@ == old(self).entries@ + entries@,
            final(self).loading == old(self).loading,
            final(self).detail_id == old(self).detail_id,
    {
        let mut entries = entries;
        self.loading_more = false;
        let n = entries.len();
        self.has_more = history_has_more_after_page(n, HISTORY_PAGE_SIZE);
        self.offset = self.offset + n;
        self.entries.append(&mut entries);
        if n == 0 {
            self.has_more = false;
        }
    }

    /// The periodic refresh: while the list is visible, reload from the top with the
    /// displayed window size (at least a page).
    pub fn history_refresh(&self) -> (t: Vec<BrowserTask>)
        ensures
            tasks_view(t@) == if !self.on_settings && self.detail_id is None {
                seq![TaskModel::LoadHistory {
                    offset: 0,
                    limit: if self.entries@.len() >= HISTORY_PAGE_SIZE { self.entries@.len() as usize } else { HISTORY_PAGE_SIZE },
                }]
            } else {
                seq![]
            },
    {
        let mut t: Vec<BrowserTask> = Vec::new();
        if self.on_history_page() {
            let limit = if self.entries.len() >= HISTORY_PAGE_SIZE { self.entries.len() } else { HISTORY_PAGE_SIZE };
            t.push(BrowserTask::LoadHistory { offset: 0, limit });
        }
        assert(tasks_view(t@) =~= if !self.on_settings && self.detail_id is None {
            seq![TaskModel::LoadHistory {
                offset: 0,
                limit: if self.entries@.len() >= HISTORY_PAGE_SIZE { self.entries@.len() as usize } else { HISTORY_PAGE_SIZE },
            }]
        } else {
            seq![]
        });
        t
    }

    /// "Show more": fetch the next page unless one is loading or none is left.
    pub fn load_more(&mut self) -> (t: Vec<BrowserTask>)
        ensures
            if old(self).loading_more || !old(self).has_more {
                &&& tasks_view(t@) == Seq::<TaskModel>::empty()
                &&& final(self).loading_more == old(self).loading_more
            } else {
                &&& tasks_view(t@) == seq![TaskModel::LoadHistory { offset: old(self).offset, limit: HISTORY_PAGE_SIZE }]
                &&& final(self).loading_more
            },
            final(self).offset == old(self).offset,
            final(self).entries@ == old(self).entries@,
            final(self).has_more == old(self).has_more,
    {
        let mut t: Vec<BrowserTask> = Vec::new();
        if self.loading_more || !self.has_more {
            assert(tasks_view(t@) =~= Seq::<TaskModel>::empty());
            return t;
        }
        self.loading_more = true;
        t.push(BrowserTask::LoadHistory { offset: self.offset, limit: HISTORY_PAGE_SIZE });
        assert(tasks_view(t@) =~= seq![TaskModel::LoadHistory { offset: self.offset, limit: HISTORY_PAGE_SIZE }]);
        t
    }

    /// A recording was opened: its detail loads from version 0, not editing.
    pub fn open_recording(&mut self, id: String) -> (t: Vec<BrowserTask>)
        ensures
            opt_str(final(self).detail_id) == Some(id@),
            final(self).detail is None,
            final(self).detail_error is None,
            final(self).confirming_delete is None,
            final(self).active_version == 0,
            !final(self).editing,
            final(self).entries@ == old(self).entries@,
            tasks_view(t@) == seq![TaskModel::ResetAudio, TaskModel::LoadDetail(id@), TaskModel::UpdateTitle],
    {
        let mut t: Vec<BrowserTask> = Vec::new();
        t.push(BrowserTask::ResetAudio);
        t.push(BrowserTask::LoadDetail(id.clone()));
        t.push(BrowserTask::UpdateTitle);
        self.detail_id = Some(id);
        self.detail = None;
        self.detail_error = None;
        self.confirming_delete = None;
        self.active_version = 0;
        self.editing = false;
        assert(tasks_view(t@) =~= seq![TaskModel::ResetAudio, TaskModel::LoadDetail(id@), TaskModel::UpdateTitle]);
        t
    }

    /// Back to the list from a detail.
    pub fn back_from_detail(&mut self) -> (t: Vec<BrowserTask>)
        ensures
            final(self).detail_id is None,
            final(self).detail is None,
            final(self).detail_error is None,
            final(self).confirming_delete is None,
            !final(self).editing,
            final(self).entries@ == old(self).entries@,
            tasks_view(t@) == seq![TaskModel::ResetAudio, TaskModel::UpdateTitle],
    {
        self.detail_id = None;
        self.detail = None;
        self.detail_error = None;
        self.confirming_delete = None;
        self.editing = false;
        let mut t: Vec<BrowserTask> = Vec::new();
        t.push(BrowserTask::ResetAudio);
        t.push(BrowserTask::UpdateTitle);
        assert(tasks_view(t@) =~= seq![TaskModel::ResetAudio, TaskModel::UpdateTitle]);
        t
    }

    /// Delete was pressed on `file`: ask for confirmation.
    pub fn confirm_delete(&mut self, file: String)
        ensures
            opt_str(final(self).confirming_delete) == Some(file@),
            final(self).entries@ == old(self).entries@,
            final(self).detail_id == old(self).detail_id,
    {
        self.confirming_delete = Some(file);
    }

    /// The delete confirmation was dismissed.
    pub fn cancel_delete(&mut self)
        ensures
            final(self).confirming_delete is None,
            final(self).entries@ == old(self).entries@,
            final(self).detail_id == old(self).detail_id,
    {
        self.confirming_delete = None;
    }

    /// The delete was confirmed: the recording's files are deleted.
    pub fn delete_entry(&mut self, file: String) -> (t: Vec<BrowserTask>)
        ensures
            final(self).confirming_delete is None,
            final(self).entries@ == old(self).entries@,
            final(self).detail_id == old(self).detail_id,
            tasks_view(t@) == seq![TaskModel::DeleteRecording(file@)],
    {
        self.confirming_delete = None;
        let mut t: Vec<BrowserTask> = Vec::new();
        t.push(BrowserTask::DeleteRecording(file));
        assert(tasks_view(t@) =~= seq![TaskModel::DeleteRecording(file@)]);
        t
    }

    /// The deletion of `file` finished: on success its row goes (by file, wherever it is)
    /// and an open detail of it closes; a failure is shown.
    pub fn deleted(&mut self, file: String, result: Result<(), String>) -> (t: Vec<BrowserTask>)
        ensures
            match result {
                Err(msg) => {
                    &&& tasks_view(t@) == seq![TaskModel::Toast(msg@)]
                    &&& final(self).entries@ == old(self).entries@
                    &&& final(self).detail_id == old(self).detail_id
                },
                Ok(()) => {
                    &&& final(self).entries@ == without_file(old(self).entries@, file@)
                    &&& if opt_str(old(self).detail_id) == Some(file@) {
                        &&& final(self).detail_id is None
                        &&& final(self).detail is None
                        &&& tasks_view(t@) == seq![
                            TaskModel::ResetAudio,
                            TaskModel::Toast("Recording deleted"@),
                            TaskModel::UpdateTitle,
                        ]
                    } else {
                        &&& final(self).detail_id == old(self).detail_id
                        &&& tasks_view(t@) == seq![TaskModel::Toast("Recording deleted"@)]
                    }
                },
            },
    {
        let mut t: Vec<BrowserTask> = Vec::new();
        match result {
            Err(msg) => {
                let ghost m = msg@;
                t.push(BrowserTask::Toast(msg));
                assert(tasks_view(t@) =~= seq![TaskModel::Toast(m)]);
                return t;
            },
            Ok(()) => {},
        }
        self.remove_file(file.as_str());
        let open = match &self.detail_id {
            Some(d) => str_eq(d.as_str(), file.as_str()),
            None => false,
        };
        if open {
            self.detail_id = None;
            self.detail = None;
            t.push(BrowserTask::ResetAudio);
            t.push(BrowserTask::Toast(String::from_str("Recording deleted")));
            t.push(BrowserTask::UpdateTitle);
            assert(tasks_view(t@) =~= seq![TaskModel::ResetAudio, TaskModel::Toast("Recording deleted"@), TaskModel::UpdateTitle]);
        } else {
            t.push(BrowserTask::Toast(String::from_str("Recording deleted")));
            assert(tasks_view(t@) =~= seq![TaskModel::Toast("Recording deleted"@)]);
        }
        t
    }

    fn remove_file(&mut self, file: &str)
        ensures
            final(self).entries@ == without_file(old(self).entries@, file@),
            final(self).detail_id == old(self).detail_id,
            final(self).detail == old(self).detail,
    {
        let ghost orig = self.entries@;
        let mut i: usize = 0;
        let ghost mut k: int = 0;
        assert(orig.take(0) =~= Seq::<HistoryEntry>::empty());
        assert(orig.skip(0) =~= orig);
        while i < self.entries.len()
            invariant
                0 <= k <= orig.len(),
                i == without_file(orig.take(k), file@).len(),
                self.entries@ == without_file(orig.take(k), file@) + orig.skip(k),
                self.detail_id == old(self).detail_id,
                self.detail == old(self).detail,
                orig == old(self).entries@,
            decreases orig.len() - k,
        {
            assert(self.entries@[i as int] == orig[k]);
            assert(orig.take(k + 1).drop_last() =~= orig.take(k));
            assert(orig.take(k + 1).last() == orig[k]);
            if str_eq(self.entries[i].file.as_str(), file) {
                self.entries.remove(i);
                assert(self.entries@ =~= without_file(orig.take(k), file@) + orig.skip(k + 1));
            } else {
                assert(self.entries@ =~= without_file(orig.take(k + 1), file@) + orig.skip(k + 1));
                i += 1;
            }
            proof {
                k = k + 1;
            }
        }
        assert(self.entries@.len() == i + orig.skip(k).len());
        assert(k == orig.len());
        assert(orig.take(k) =~= orig);
        assert(orig.skip(k) =~= Seq::<HistoryEntry>::empty());
        assert(self.entries@ =~= without_file(orig, file@));
    }

    /// A detail arrived: it is shown at the selected version.
    pub fn detail_loaded(&mut self, detail: DetailText) -> (t: Vec<BrowserTask>)
        ensures
            final(self).detail_error is None,
            detail_view(final(self).detail) == detail_view(Some(detail)),
            final(self).active_version == old(self).active_version,
            tasks_view(t@) == seq![
                TaskModel::ShowText(version_text_of(detail_view(Some(detail)), old(self).active_version as nat)),
                TaskModel::UpdateTitle,
            ],
    {
        self.detail_error = None;
        self.detail = Some(detail);
        let text = self.version_text();
        let mut t: Vec<BrowserTask> = Vec::new();
        t.push(BrowserTask::ShowText(text));
        t.push(BrowserTask::UpdateTitle);
        assert(tasks_view(t@) =~= seq![TaskModel::ShowText(text@), TaskModel::UpdateTitle]);
        t
    }

    /// A detail failed to load.
    pub fn detail_failed(&mut self, msg: String)
        ensures
            opt_str(final(self).detail_error) == Some(msg@),
            final(self).detail_id == old(self).detail_id,
    {
        self.detail_error = Some(msg);
    }

    /// Another version was picked: editing stops and its text is shown.
    pub fn set_version(&mut self, idx: usize) -> (t: Vec<BrowserTask>)
        ensures
            final(self).active_version == idx,
            !final(self).editing,
            tasks_view(t@) == seq![TaskModel::ShowText(version_text_of(detail_view(old(self).detail), idx as nat))],
    {
        self.active_version = idx;
        self.editing = false;
        let text = self.version_text();
        let mut t: Vec<BrowserTask> = Vec::new();
        t.push(BrowserTask::ShowText(text));
        assert(tasks_view(t@) =~= seq![TaskModel::ShowText(text@)]);
        t
    }

    /// Editing starts (or is abandoned): the editor gets the selected version's text.
    pub fn set_editing(&mut self, editing: bool) -> (t: Vec<BrowserTask>)
        ensures
            final(self).editing == editing,
            final(self).active_version == old(self).active_version,
            tasks_view(t@) == seq![TaskModel::ShowText(version_text_of(detail_view(old(self).detail), old(self).active_version as nat))],
    {
        self.editing = editing;
        let text = self.version_text();
        let mut t: Vec<BrowserTask> = Vec::new();
        t.push(BrowserTask::ShowText(text));
        assert(tasks_view(t@) =~= seq![TaskModel::ShowText(text@)]);
        t
    }

    /// Save was pressed on an edit: unchanged text (ignoring trailing blanks) just leaves
    /// editing; otherwise the edit is stored as a new version.
    pub fn save_edit(&mut self, edited: String) -> (t: Vec<BrowserTask>)
        ensures
            match opt_str(old(self).detail_id) {
                None => tasks_view(t@) == Seq::<TaskModel>::empty() && final(self).editing == old(self).editing,
                Some(id) => if strip_edit_end(version_text_of(detail_view(old(self).detail), old(self).active_version as nat))
                    == strip_edit_end(edited@) {
                    tasks_view(t@) == Seq::<TaskModel>::empty() && !final(self).editing
                } else {
                    tasks_view(t@) == seq![TaskModel::SaveEdit { id, text: edited@ }] && final(self).editing == old(self).editing
                },
            },
            final(self).detail_id == old(self).detail_id,
    {
        let mut t: Vec<BrowserTask> = Vec::new();
        let id = match &self.detail_id {
            Some(id) => id.clone(),
            None => {
                assert(tasks_view(t@) =~= Seq::<TaskModel>::empty());
                return t;
            },
        };
        let current = self.version_text();
        if !should_save_edit(current.as_str(), edited.as_str()) {
            self.editing = false;
            assert(tasks_view(t@) =~= Seq::<TaskModel>::empty());
            return t;
        }
        t.push(BrowserTask::SaveEdit { id, text: edited });
        assert(tasks_view(t@) =~= seq![t@[0]@]);
        t
    }

    /// Storing an edit of `id` finished: on success editing ends and the detail reloads.
    pub fn edit_saved(&mut self, id: String, result: Result<(), String>) -> (t: Vec<BrowserTask>)
        ensures
            match result {
                Err(msg) => tasks_view(t@) == seq![TaskModel::Toast(msg@)] && final(self).editing == old(self).editing,
                Ok(()) => tasks_view(t@) == seq![TaskModel::Toast("Saved new version"@), TaskModel::LoadDetail(id@)]
                    && !final(self).editing,
            },
    {
        let mut t: Vec<BrowserTask> = Vec::new();
        match result {
            Err(msg) => {
                let ghost m = msg@;
                t.push(BrowserTask::Toast(msg));
                assert(tasks_view(t@) =~= seq![TaskModel::Toast(m)]);
            },
            Ok(()) => {
                let ghost i = id@;
                self.editing = false;
                t.push(BrowserTask::Toast(String::from_str("Saved new version")));
                t.push(BrowserTask::LoadDetail(id));
                assert(tasks_view(t@) =~= seq![TaskModel::Toast("Saved new version"@), TaskModel::LoadDetail(i)]);
            },
        }
        t
    }

    /// Transcribe again was pressed on the open recording.
    pub fn transcribe(&mut self) -> (t: Vec<BrowserTask>)
        ensures
            match opt_str(old(self).detail_id) {
                None => tasks_view(t@) == Seq::<TaskModel>::empty() && final(self).transcribing == old(self).transcribing,
                Some(id) => tasks_view(t@) == seq![TaskModel::Transcribe(id)] && final(self).transcribing,
            },
            final(self).detail_id == old(self).detail_id,
    {
        let mut t: Vec<BrowserTask> = Vec::new();
        match &self.detail_id {
            Some(id) => {
                let id = id.clone();
                self.transcribing = true;
                t.push(BrowserTask::Transcribe(id));
                assert(tasks_view(t@) =~= seq![t@[0]@]);
            },
            None => {
                assert(tasks_view(t@) =~= Seq::<TaskModel>::empty());
            },
        }
        t
    }

    /// Re-transcription finished: the detail reloads, or the error is shown.
    pub fn transcribe_done(&mut self, result: Result<String, String>) -> (t: Vec<BrowserTask>)
        ensures
            !final(self).transcribing,
            match result {
                Err(e) => opt_str(final(self).detail_error) == Some(e@) && tasks_view(t@) == Seq::<TaskModel>::empty(),
                Ok(_) => final(self).detail_error == old(self).detail_error && tasks_view(t@) == match opt_str(old(self).detail_id) {
                    Some(id) => seq![TaskModel::LoadDetail(id)],
                    None => Seq::<TaskModel>::empty(),
                },
            },
            final(self).detail_id == old(self).detail_id,
    {
        self.transcribing = false;
        let mut t: Vec<BrowserTask> = Vec::new();
        match result {
            Err(e) => {
                self.detail_error = Some(e);
                assert(tasks_view(t@) =~= Seq::<TaskModel>::empty());
            },
            Ok(_) => {
                match &self.detail_id {
                    Some(id) => {
                        t.push(BrowserTask::LoadDetail(id.clone()));
                        assert(tasks_view(t@) =~= seq![t@[0]@]);
                    },
                    None => {
                        assert(tasks_view(t@) =~= Seq::<TaskModel>::empty());
                    },
                }
            },
        }
        t
    }

    /// Copy was pressed on a control: blank text is ignored; otherwise it is copied and the
    /// control shows "Copied" for a moment.
    pub fn copy_text(&mut self, text: String, flash_id: String) -> (t: Vec<BrowserTask>)
        ensures
            trim(text@).len() == 0 ==> tasks_view(t@) == Seq::<TaskModel>::empty() && final(self).copied_flash
                == old(self).copied_flash,
            trim(text@).len() > 0 ==> tasks_view(t@) == seq![TaskModel::CopyText(text@), TaskModel::ClearFlashLater(flash_id@)]
                && opt_str(final(self).copied_flash) == Some(flash_id@),
    {
        let mut t: Vec<BrowserTask> = Vec::new();
        if crate::keyring::trimmed(text.as_str()).as_str().is_empty() {
            assert(tasks_view(t@) =~= Seq::<TaskModel>::empty());
            return t;
        }
        self.copied_flash = Some(flash_id.clone());
        t.push(BrowserTask::CopyText(text));
        t.push(BrowserTask::ClearFlashLater(flash_id));
        assert(tasks_view(t@) =~= seq![t@[0]@, t@[1]@]);
        t
    }

    /// The "Copied" flash of `flash_id` ends, unless another control took it meanwhile.
    pub fn clear_copied_flash(&mut self, flash_id: &str)
        ensures
            opt_str(final(self).copied_flash) == if opt_str(old(self).copied_flash) == Some(flash_id@) {
                None
            } else {
                opt_str(old(self).copied_flash)
            },
    {
        let same = match &self.copied_flash {
            Some(f) => str_eq(f.as_str(), flash_id),
            None => false,
        };
        if same {
            self.copied_flash = None;
        }
    }
}

} // verus!

verus! {

/// The settings form as edited.
#[derive(Debug, Clone)]
pub struct SettingsForm {
    pub lang: String,
    /// A newly typed API key (blank: keep the stored one).
    pub api_key: String,
    pub output_mode: String,
    pub history_time_mode: String,
    pub stt_endpoint: String,
    /// Some credential is usable (sign-in, environment or stored key).
    pub has_key: bool,
    /// An API key file is stored.
    pub has_stored_api_key: bool,
    pub auth_mode: String,
}

/// The preferences as last loaded or saved.
#[derive(Debug, Clone)]
pub struct SettingsSnapshot {
    pub lang: String,
    pub output_mode: String,
    pub history_time_mode: String,
    pub stt_endpoint: String,
}

/// The Settings page: the form, the saved preferences it is compared with, and the state
/// of a save.
#[derive(Debug, Clone)]
pub struct SettingsPanel {
    pub form: SettingsForm,
    pub saved_snap: SettingsSnapshot,
    /// The configuration has been loaded once (no Save before that).
    pub loaded: bool,
    pub saving: bool,
    /// A save just succeeded (the button says so for a moment).
    pub saved: bool,
    pub error: Option<String>,
}

pub open spec fn toast_with(prefix: Seq<char>, detail: Seq<char>) -> TaskModel {
    TaskModel::Toast(prefix + detail)
}

fn toast_joined(prefix: &str, detail: &str) -> (t: BrowserTask)
    ensures
        t@ == toast_with(prefix@, detail@),
{
    let mut m = String::from_str(prefix);
    push_str(&mut m, detail);
    BrowserTask::Toast(m)
}

impl SettingsPanel {
    /// Defaults before the configuration loads: `en`, `wtype`, `relative`, the default
    /// endpoint, no credentials; nothing loaded, so nothing is dirty.
    pub fn new() -> (p: SettingsPanel)
        ensures
            p.form.lang@ == "en"@,
            p.form.api_key@.len() == 0,
            p.form.output_mode@ == "wtype"@,
            p.form.history_time_mode@ == "relative"@,
            p.form.stt_endpoint@ == crate::keyring::DEFAULT_STT_ENDPOINT@,
            !p.form.has_key,
            !p.form.has_stored_api_key,
            p.form.auth_mode@ == "none"@,
            p.saved_snap.lang@ == "en"@,
            p.saved_snap.output_mode@ == "wtype"@,
            p.saved_snap.history_time_mode@ == "relative"@,
            p.saved_snap.stt_endpoint@ == crate::keyring::DEFAULT_STT_ENDPOINT@,
            !p.loaded,
            !p.saving,
            !p.saved,
            p.error is None,
    {
        SettingsPanel {
            form: SettingsForm {
                lang: String::from_str("en"),
                api_key: String::new(),
                output_mode: String::from_str("wtype"),
                history_time_mode: String::from_str("relative"),
                stt_endpoint: String::from_str(crate::keyring::DEFAULT_STT_ENDPOINT),
                has_key: false,
                has_stored_api_key: false,
                auth_mode: String::from_str("none"),
            },
            saved_snap: SettingsSnapshot {
                lang: String::from_str("en"),
                output_mode: String::from_str("wtype"),
                history_time_mode: String::from_str("relative"),
                stt_endpoint: String::from_str(crate::keyring::DEFAULT_STT_ENDPOINT),
            },
            loaded: false,
            saving: false,
            saved: false,
            error: None,
        }
    }

    /// The configuration arrived: form and saved preferences take its values; a typed key
    /// is dropped.
    pub fn settings_loaded(&mut self, config: AppConfig, has_stored_api_key: bool)
        ensures
            final(self).form.lang@ == config.lang@,
            final(self).form.output_mode@ == config.output_mode@,
            final(self).form.history_time_mode@ == config.history_time_mode@,
            final(self).form.stt_endpoint@ == config.stt_endpoint@,
            final(self).form.has_key == config.has_key,
            final(self).form.has_stored_api_key == has_stored_api_key,
            final(self).form.auth_mode@ == config.auth_mode@,
            final(self).form.api_key@.len() == 0,
            final(self).saved_snap.lang@ == config.lang@,
            final(self).saved_snap.output_mode@ == config.output_mode@,
            final(self).saved_snap.history_time_mode@ == config.history_time_mode@,
            final(self).saved_snap.stt_endpoint@ == config.stt_endpoint@,
            final(self).loaded,
            final(self).saving == old(self).saving,
            final(self).saved == old(self).saved,
    {
        self.saved_snap = SettingsSnapshot {
            lang: config.lang.clone(),
            output_mode: config.output_mode.clone(),
            history_time_mode: config.history_time_mode.clone(),
            stt_endpoint: config.stt_endpoint.clone(),
        };
        self.form.lang = config.lang;
        self.form.output_mode = config.output_mode;
        self.form.history_time_mode = config.history_time_mode;
        self.form.stt_endpoint = config.stt_endpoint;
        self.form.has_key = config.has_key;
        self.form.has_stored_api_key = has_stored_api_key;
        self.form.auth_mode = config.auth_mode;
        self.form.api_key = String::new();
        self.loaded = true;
    }

    /// The form differs from the saved preferences (never before the first load); the
    /// endpoint is compared trimmed and a typed key counts when not blank.
    pub fn dirty(&self) -> (b: bool)
        ensures
            b == (self.loaded && (self.form.lang@ != self.saved_snap.lang@
                || self.form.output_mode@ != self.saved_snap.output_mode@
                || self.form.history_time_mode@ != self.saved_snap.history_time_mode@
                || trim(self.form.stt_endpoint@) != trim(self.saved_snap.stt_endpoint@)
                || self.form.api_key@.len() != 0)),
    {
        if !self.loaded {
            return false;
        }
        settings_is_dirty(
            self.form.lang.as_str(),
            self.form.output_mode.as_str(),
            self.form.history_time_mode.as_str(),
            self.form.stt_endpoint.as_str(),
            self.form.api_key.as_str(),
            self.saved_snap.lang.as_str(),
            self.saved_snap.output_mode.as_str(),
            self.saved_snap.history_time_mode.as_str(),
            self.saved_snap.stt_endpoint.as_str(),
            !self.form.has_key,
            false,
            false,
        )
    }

    /// The header Save button is shown.
    pub fn save_visible(&self) -> (b: bool)
        ensures
            b == (self.loaded && self.dirty_spec()),
    {
        let d = self.dirty();
        settings_save_visible(self.loaded, d)
    }

    pub open spec fn dirty_spec(&self) -> bool {
        self.loaded && (self.form.lang@ != self.saved_snap.lang@
            || self.form.output_mode@ != self.saved_snap.output_mode@
            || self.form.history_time_mode@ != self.saved_snap.history_time_mode@
            || trim(self.form.stt_endpoint@) != trim(self.saved_snap.stt_endpoint@)
            || self.form.api_key@.len() != 0)
    }

    /// Save was pressed: the update to apply (every preference; the key only when typed).
    pub fn save(&mut self) -> (u: ConfigUpdate)
        ensures
            final(self).saving,
            !final(self).saved,
            final(self).error is None,
            opt_str(u.lang) == Some(old(self).form.lang@),
            opt_str(u.output_mode) == Some(old(self).form.output_mode@),
            opt_str(u.history_time_mode) == Some(old(self).form.history_time_mode@),
            opt_str(u.stt_endpoint) == Some(old(self).form.stt_endpoint@),
            opt_str(u.key) == if old(self).form.api_key@.len() == 0 { None } else { Some(old(self).form.api_key@) },
            u.correction_key is None,
            u.correction_model is None,
            final(self).form.api_key@ == old(self).form.api_key@,
    {
        self.saving = true;
        self.saved = false;
        self.error = None;
        ConfigUpdate {
            lang: Some(self.form.lang.clone()),
            output_mode: Some(self.form.output_mode.clone()),
            history_time_mode: Some(self.form.history_time_mode.clone()),
            stt_endpoint: Some(self.form.stt_endpoint.clone()),
            key: if self.form.api_key.as_str().is_empty() { None } else { Some(self.form.api_key.clone()) },
            correction_key: None,
            correction_model: None,
        }
    }

    /// The save succeeded: the form becomes the saved preferences; a typed key now counts
    /// as stored and leaves the form.
    pub fn save_succeeded(&mut self) -> (t: Vec<BrowserTask>)
        ensures
            !final(self).saving,
            final(self).saved,
            final(self).form.api_key@.len() == 0,
            final(self).form.has_key == (old(self).form.has_key || old(self).form.api_key@.len() != 0),
            final(self).form.has_stored_api_key == (old(self).form.has_stored_api_key || old(self).form.api_key@.len() != 0),
            final(self).saved_snap.lang@ == old(self).form.lang@,
            final(self).saved_snap.output_mode@ == old(self).form.output_mode@,
            final(self).saved_snap.history_time_mode@ == old(self).form.history_time_mode@,
            final(self).saved_snap.stt_endpoint@ == old(self).form.stt_endpoint@,
            final(self).form.lang@ == old(self).form.lang@,
            final(self).form.output_mode@ == old(self).form.output_mode@,
            final(self).form.history_time_mode@ == old(self).form.history_time_mode@,
            final(self).form.stt_endpoint@ == old(self).form.stt_endpoint@,
            final(self).loaded == old(self).loaded,
            tasks_view(t@) == seq![TaskModel::Toast("Settings saved"@), TaskModel::LoadSettings, TaskModel::ClearSavedLater],
    {
        self.saving = false;
        self.saved = true;
        if !self.form.api_key.as_str().is_empty() {
            self.form.has_key = true;
            self.form.has_stored_api_key = true;
        }
        self.form.api_key = String::new();
        self.saved_snap = SettingsSnapshot {
            lang: self.form.lang.clone(),
            output_mode: self.form.output_mode.clone(),
            history_time_mode: self.form.history_time_mode.clone(),
            stt_endpoint: self.form.stt_endpoint.clone(),
        };
        let mut t: Vec<BrowserTask> = Vec::new();
        t.push(BrowserTask::Toast(String::from_str("Settings saved")));
        t.push(BrowserTask::LoadSettings);
        t.push(BrowserTask::ClearSavedLater);
        assert(tasks_view(t@) =~= seq![TaskModel::Toast("Settings saved"@), TaskModel::LoadSettings, TaskModel::ClearSavedLater]);
        t
    }

    /// The save failed: the message stays on the page and is announced.
    pub fn save_failed(&mut self, msg: String) -> (t: Vec<BrowserTask>)
        ensures
            !final(self).saving,
            opt_str(final(self).error) == Some(msg@),
            final(self).saved == old(self).saved,
            tasks_view(t@) == seq![toast_with("Save failed: "@, msg@)],
    {
        self.saving = false;
        let mut t: Vec<BrowserTask> = Vec::new();
        t.push(toast_joined("Save failed: ", msg.as_str()));
        self.error = Some(msg);
        assert(tasks_view(t@) =~= seq![t@[0]@]);
        t
    }

    /// The "Saved" label goes.
    pub fn saved_clear(&mut self)
        ensures
            !final(self).saved,
            final(self).saving == old(self).saving,
    {
        self.saved = false;
    }

    /// A browser sign-in was started (or could not be).
    pub fn login_started(&self, result: Result<(), String>) -> (t: Vec<BrowserTask>)
        ensures
            match result {
                Ok(()) => tasks_view(t@) == seq![
                    TaskModel::Toast("Finish sign-in in the browser, then press Refresh"@),
                    TaskModel::RefreshAuthLater,
                ],
                Err(e) => tasks_view(t@) == seq![toast_with("Could not start login: "@, e@)],
            },
    {
        let mut t: Vec<BrowserTask> = Vec::new();
        match result {
            Ok(()) => {
                t.push(BrowserTask::Toast(String::from_str("Finish sign-in in the browser, then press Refresh")));
                t.push(BrowserTask::RefreshAuthLater);
                assert(tasks_view(t@) =~= seq![
                    TaskModel::Toast("Finish sign-in in the browser, then press Refresh"@),
                    TaskModel::RefreshAuthLater,
                ]);
            },
            Err(e) => {
                t.push(toast_joined("Could not start login: ", e.as_str()));
                assert(tasks_view(t@) =~= seq![t@[0]@]);
            },
        }
        t
    }

    /// Sign-out finished: on success the page shows no sign-in and reloads.
    pub fn logout_done(&mut self, result: Result<(), String>) -> (t: Vec<BrowserTask>)
        ensures
            match result {
                Ok(()) => final(self).form.auth_mode@ == "none"@
                    && tasks_view(t@) == seq![TaskModel::Toast("Signed out"@), TaskModel::LoadSettings],
                Err(e) => final(self).form.auth_mode@ == old(self).form.auth_mode@
                    && tasks_view(t@) == seq![toast_with("Logout failed: "@, e@)],
            },
    {
        let mut t: Vec<BrowserTask> = Vec::new();
        match result {
            Ok(()) => {
                self.form.auth_mode = String::from_str("none");
                t.push(BrowserTask::Toast(String::from_str("Signed out")));
                t.push(BrowserTask::LoadSettings);
                assert(tasks_view(t@) =~= seq![TaskModel::Toast("Signed out"@), TaskModel::LoadSettings]);
            },
            Err(e) => {
                t.push(toast_joined("Logout failed: ", e.as_str()));
                assert(tasks_view(t@) =~= seq![t@[0]@]);
            },
        }
        t
    }

    /// Removing the stored API key finished: on success no key is stored or typed.
    pub fn clear_key_done(&mut self, result: Result<(), ApiError>) -> (t: Vec<BrowserTask>)
        ensures
            match result {
                Ok(()) => !final(self).form.has_stored_api_key && final(self).form.api_key@.len() == 0
                    && tasks_view(t@) == seq![TaskModel::Toast("API key removed"@), TaskModel::LoadSettings],
                Err(e) => final(self).form.has_stored_api_key == old(self).form.has_stored_api_key
                    && tasks_view(t@) == seq![toast_with("Could not remove API key: "@, crate::api::error_message(e@))],
            },
    {
        let mut t: Vec<BrowserTask> = Vec::new();
        match result {
            Ok(()) => {
                self.form.has_stored_api_key = false;
                self.form.api_key = String::new();
                t.push(BrowserTask::Toast(String::from_str("API key removed")));
                t.push(BrowserTask::LoadSettings);
                assert(tasks_view(t@) =~= seq![TaskModel::Toast("API key removed"@), TaskModel::LoadSettings]);
            },
            Err(e) => {
                let m = e.message();
                t.push(toast_joined("Could not remove API key: ", m.as_str()));
                assert(tasks_view(t@) =~= seq![t@[0]@]);
            },
        }
        t
    }
}

} // verus!