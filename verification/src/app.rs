//! The selector's state: the session list with its filters and sort order,
//! the folder panel, and the command line.
use vstd::prelude::*;
use crate::model::{Session, Folder, FolderView};
use crate::strmap::StrMap;
use crate::sort::{Keyed, KeyView, key_lt, key_of, keys_of, sort_keyed, strictly_sorted, lemma_sorted_unique, lemma_key_lt_irrefl, seq_lt};
use crate::text::{chars_of, to_lowercase, lowercase, seq_contains, contains_seq, str_eq, concat};

verus! {

/// What a `:` command did.
#[derive(Debug, Clone, PartialEq, Eq)]
pub enum CommandResult {
    Executed,
    Unknown(String),
    Error(String),
    Quit,
}

/// The order of the session list.
#[derive(Debug, Clone, Copy, PartialEq, Eq)]
pub enum SortBy {
    Updated,
    Created,
    Title,
}

/// The screen being shown.
#[derive(Debug, Clone, Copy, PartialEq, Eq)]
pub enum Screen {
    Main,
    Preview,
    Help,
    ConfirmDelete,
    Rename,
    MoveToFolder,
    NewFolder,
}

/// Where typed keys go.
#[derive(Debug, Clone, Copy, PartialEq, Eq)]
pub enum InputMode {
    Normal,
    Search,
    Rename,
    NewFolder,
    Confirm,
    Command,
}

/// A completion offered on the command line.
#[derive(Debug, Clone)]
pub struct Suggestion {
    pub text: String,
    pub description: String,
}

/// The selector's state.
#[derive(Debug)]
pub struct App {
    pub sessions: Vec<Session>,
    pub folders: Vec<Folder>,
    pub session_folder_map: StrMap,
    pub filtered_indices: Vec<usize>,
    pub selected_session: usize,
    pub selected_folder: usize,
    pub sort_by: SortBy,
    pub screen: Screen,
    pub input_mode: InputMode,
    pub search_query: String,
    pub rename_buffer: String,
    pub new_folder_buffer: String,
    pub confirm_message: String,
    pub pending_delete_id: Option<String>,
    pub status_message: Option<String>,
    pub pending_key: Option<char>,
    pub project_filter: Option<String>,
    pub current_project: Option<String>,
    pub folders_enabled: bool,
    pub global_mode: bool,
    pub command_buffer: String,
    pub command_history: Vec<String>,
    pub command_history_pos: Option<usize>,
    pub command_suggestions: Vec<Suggestion>,
    pub selected_suggestion: usize,
    pub preview_scroll: u16,
}

/// The folder selected in the panel, if the selection is in range.
pub open spec fn selected_folder_of(app: App) -> Option<Folder> {
    if app.selected_folder < app.folders@.len() {
        Some(app.folders@[app.selected_folder as int])
    } else {
        None
    }
}

/// The session belongs to the project being filtered on, if any.
pub open spec fn passes_project(app: App, s: Session) -> bool {
    match app.project_filter {
        Some(p) => s.project_id@ == p@,
        None => true,
    }
}

/// The session belongs to the selected folder: the All folder holds every
/// session, any other folder the sessions mapped to it.
pub open spec fn passes_folder(app: App, s: Session) -> bool {
    match selected_folder_of(app) {
        Some(f) => f.id@ == "all"@ || (app.session_folder_map@.dom().contains(s.id@)
            && app.session_folder_map@[s.id@] == f.id@),
        None => true,
    }
}

/// The session matches the search: the lowercased query occurs in the
/// lowercased shown title, slug, project name or message preview.
pub open spec fn passes_search(app: App, s: Session) -> bool {
    let q = lowercase(app.search_query@);
    ||| app.search_query@.len() == 0
    ||| seq_contains(lowercase(s.shown_title()), q)
    ||| seq_contains(lowercase(s.slug@), q)
    ||| seq_contains(lowercase(s.project_name@), q)
    ||| match s.first_message_preview {
        Some(m) => seq_contains(lowercase(m@), q),
        None => false,
    }
}

/// Session `i` is listed.
pub open spec fn shown(app: App, i: int) -> bool {
    let s = app.sessions@[i];
    passes_project(app, s) && passes_folder(app, s) && passes_search(app, s)
}

/// The sort key of session `s` at position `i`: newest update (or creation)
/// first, then title; or title alone; ties keep the sessions' order.
pub open spec fn sort_key(s: Session, by: SortBy, i: int) -> KeyView {
    match by {
        SortBy::Updated => KeyView { primary: -(s.updated_at as int), text: s.title@, index: i },
        SortBy::Created => KeyView { primary: -(s.created_at as int), text: s.title@, index: i },
        SortBy::Title => KeyView { primary: 0, text: s.title@, index: i },
    }
}

/// `filtered_indices` lists exactly the shown sessions, in sort order.
pub open spec fn listing_ok(app: App) -> bool {
    let idx = app.filtered_indices@;
    &&& forall|k: int| 0 <= k < idx.len() ==> idx[k] < app.sessions@.len() && shown(app, idx[k] as int)
    &&& forall|i: int| 0 <= i < app.sessions@.len() && shown(app, i) ==> idx.contains(i as usize)
    &&& forall|a: int, b: int|
        0 <= a < b < idx.len() ==> key_lt(
            sort_key(app.sessions@[idx[a] as int], app.sort_by, idx[a] as int),
            sort_key(app.sessions@[idx[b] as int], app.sort_by, idx[b] as int),
        )
}

/// A selection kept in range after the list changed: past the end it moves
/// to the last entry (or to 0 when the list is empty).
pub open spec fn clamped(sel: usize, len: nat) -> usize {
    if sel >= len {
        if len == 0 {
            0
        } else {
            (len - 1) as usize
        }
    } else {
        sel
    }
}

/// The list was recomputed for the state's filters and order, and the
/// selection `prev_sel` clamped to it.
pub open spec fn refreshed(app: App, prev_sel: usize) -> bool {
    listing_ok(app) && app.selected_session == clamped(prev_sel, app.filtered_indices@.len())
}

/// The session under the cursor.
pub open spec fn current_session_of(app: App) -> Option<Session> {
    if app.selected_session < app.filtered_indices@.len() && app.filtered_indices@[app.selected_session as int] < app.sessions@.len() {
        Some(app.sessions@[app.filtered_indices@[app.selected_session as int] as int])
    } else {
        None
    }
}

/// The status line shows `msg`.
pub open spec fn status_is(app: App, msg: Seq<char>) -> bool {
    app.status_message matches Some(m) && m@ == msg
}

/// The order after `by` in the cycle updated, created, title.
pub open spec fn next_sort(by: SortBy) -> SortBy {
    match by {
        SortBy::Updated => SortBy::Created,
        SortBy::Created => SortBy::Title,
        SortBy::Title => SortBy::Updated,
    }
}

/// The name of a sort order.
pub open spec fn sort_name(by: SortBy) -> Seq<char> {
    match by {
        SortBy::Updated => "updated"@,
        SortBy::Created => "created"@,
        SortBy::Title => "title"@,
    }
}

/// The name of a sort order.
pub fn sort_label(sort: SortBy) -> (r: &'static str)
    ensures
        r@ == sort_name(sort),
{
    match sort {
        SortBy::Updated => "updated",
        SortBy::Created => "created",
        SortBy::Title => "title",
    }
}

/// Cycling the sort order three times comes back to where it started.
pub proof fn law_sort_cycle(by: SortBy)
    ensures
        next_sort(next_sort(next_sort(by))) == by,
        next_sort(by) != by,
{
}

/// Switching between the current project and all projects: with a filter
/// set, show all projects; without one, filter on the current project and
/// say so; the list is refreshed either way.
pub open spec fn project_filter_toggled(a: App, b: App) -> bool {
    &&& a.project_filter is Some ==> {
        &&& same_but_listing(
            App { project_filter: None, status_message: b.status_message, ..a },
            b,
        )
        &&& status_is(b, "Showing all projects"@)
    }
    &&& a.project_filter is None ==> {
        &&& a.current_project matches Some(p) ==> status_is(b, "Filtered to project "@ + p@)
        &&& same_but_listing(
            App { project_filter: a.current_project, status_message: b.status_message, ..a },
            b,
        )
        &&& a.current_project is None ==> b.status_message == a.status_message
    }
    &&& refreshed(b, a.selected_session)
}

/// `a` and `b` agree except on the list and the selection.
pub open spec fn same_but_listing(a: App, b: App) -> bool {
    b == App { filtered_indices: b.filtered_indices, selected_session: b.selected_session, ..a }
}

/// The list is determined by the state: two states that agree on all but
/// the list and the cursor, with both lists up to date, list the same
/// sessions in the same order. Refreshing a refreshed list changes nothing.
pub proof fn law_listing_determined(a: App, b: App)
    requires
        same_but_listing(a, b),
        listing_ok(a),
        listing_ok(b),
    ensures
        a.filtered_indices@ == b.filtered_indices@,
{
    let key = |i: usize| sort_key(a.sessions@[i as int], a.sort_by, i as int);
    let x = a.filtered_indices@;
    let y = b.filtered_indices@;
    assert forall|i: int| 0 <= i < a.sessions@.len() implies shown(a, i) == shown(b, i) by {}
    assert forall|i: int| 0 <= i < x.len() implies y.contains(#[trigger] x[i]) by {
        assert(shown(b, x[i] as int));
    }
    assert forall|i: int| 0 <= i < y.len() implies x.contains(#[trigger] y[i]) by {
        assert(shown(a, y[i] as int));
    }
    assert forall|i: int, j: int| 0 <= i < j < x.len() implies key_lt(key(x[i]), key(x[j])) by {}
    assert forall|i: int, j: int| 0 <= i < j < y.len() implies key_lt(key(y[i]), key(y[j])) by {}
    lemma_sorted_unique(x, y, key);
}

/// Refreshing twice is refreshing once: on a state whose list is up to
/// date, refreshing again keeps the list and the cursor.
pub proof fn law_refresh_idempotent(a: App, b: App, prev_sel: usize)
    requires
        refreshed(a, prev_sel),
        same_but_listing(a, b),
        refreshed(b, a.selected_session),
    ensures
        b.filtered_indices@ == a.filtered_indices@,
        b.selected_session == a.selected_session,
{
    law_listing_determined(a, b);
}

/// Searching looks at the shown title, the slug, the project name and the
/// first message: of the sessions that pass the project and folder filters,
/// an up-to-date list holds exactly those for which the query is empty or
/// its lowercased form occurs in the lowercased form of one of them.
pub proof fn law_search_fields(a: App, i: usize)
    requires
        listing_ok(a),
        i < a.sessions@.len(),
        a.project_filter matches Some(p) ==> a.sessions@[i as int].project_id@ == p@,
        passes_folder(a, a.sessions@[i as int]),
    ensures
        a.filtered_indices@.contains(i) <==> {
            let s = a.sessions@[i as int];
            let q = lowercase(a.search_query@);
            ||| a.search_query@.len() == 0
            ||| seq_contains(
                lowercase(
                    if s.title@.len() == 0 {
                        s.slug@
                    } else {
                        s.title@
                    },
                ),
                q,
            )
            ||| seq_contains(lowercase(s.slug@), q)
            ||| seq_contains(lowercase(s.project_name@), q)
            ||| (s.first_message_preview matches Some(m) && seq_contains(lowercase(m@), q))
        },
{
    let s = a.sessions@[i as int];
    assert(s.shown_title() == if s.title@.len() == 0 {
        s.slug@
    } else {
        s.title@
    });
    assert(passes_project(a, s));
    if a.filtered_indices@.contains(i) {
        let k = choose|k: int| 0 <= k < a.filtered_indices@.len() && a.filtered_indices@[k] == i;
        assert(shown(a, a.filtered_indices@[k] as int));
    }
    if passes_search(a, s) {
        assert(shown(a, i as int));
    }
}

/// Only sessions of the filtered project, if any, and of the selected
/// folder are listed.
pub proof fn law_listed_pass_filters(a: App, k: int)
    requires
        listing_ok(a),
        0 <= k < a.filtered_indices@.len(),
    ensures
        a.filtered_indices@[k] < a.sessions@.len(),
        a.project_filter matches Some(p) ==> a.sessions@[a.filtered_indices@[k] as int].project_id@ == p@,
        passes_folder(a, a.sessions@[a.filtered_indices@[k] as int]),
{
}

/// The order of an up-to-date list: by update time, newest first, or by
/// creation time, newest first, each with ties by title; or by title; and
/// sessions alike in all of that keep their order.
pub proof fn law_sort_order(a: App, x: int, y: int)
    requires
        listing_ok(a),
        0 <= x < y < a.filtered_indices@.len(),
    ensures
        ({
            let i = a.filtered_indices@[x];
            let j = a.filtered_indices@[y];
            let s = a.sessions@[i as int];
            let t = a.sessions@[j as int];
            let by_title = seq_lt(s.title@, t.title@) || (s.title@ == t.title@ && i < j);
            match a.sort_by {
                SortBy::Updated => s.updated_at > t.updated_at || (s.updated_at == t.updated_at && by_title),
                SortBy::Created => s.created_at > t.created_at || (s.created_at == t.created_at && by_title),
                SortBy::Title => by_title,
            }
        }),
{
    let i = a.filtered_indices@[x];
    let j = a.filtered_indices@[y];
    assert(key_lt(
        sort_key(a.sessions@[i as int], a.sort_by, i as int),
        sort_key(a.sessions@[j as int], a.sort_by, j as int),
    ));
}

/// A list that is up to date holds no position twice.
proof fn lemma_listing_no_dup(a: App)
    requires
        listing_ok(a),
    ensures
        a.filtered_indices@.no_duplicates(),
{
    let x = a.filtered_indices@;
    assert forall|i: int, j: int| 0 <= i < x.len() && 0 <= j < x.len() && i != j implies x[i] != x[j] by {
        if x[i] == x[j] {
            let (p, q) = if i < j { (i, j) } else { (j, i) };
            lemma_key_lt_irrefl(sort_key(a.sessions@[x[p] as int], a.sort_by, x[p] as int));
            assert(key_lt(
                sort_key(a.sessions@[x[p] as int], a.sort_by, x[p] as int),
                sort_key(a.sessions@[x[q] as int], a.sort_by, x[q] as int),
            ));
        }
    }
}

/// Two up-to-date lists of states that differ only in the order (and the
/// list and cursor) are equally long: the order never changes which
/// sessions are listed.
proof fn lemma_listing_len(a: App, b: App)
    requires
        same_but_listing(App { sort_by: b.sort_by, ..a }, b),
        listing_ok(a),
        listing_ok(b),
    ensures
        a.filtered_indices@.len() == b.filtered_indices@.len(),
{
    let x = a.filtered_indices@;
    let y = b.filtered_indices@;
    assert forall|i: int| 0 <= i < a.sessions@.len() implies shown(a, i) == shown(b, i) by {}
    lemma_listing_no_dup(a);
    lemma_listing_no_dup(b);
    assert forall|v: usize| x.contains(v) <==> y.contains(v) by {
        if x.contains(v) {
            let k = choose|k: int| 0 <= k < x.len() && x[k] == v;
            assert(shown(b, v as int));
        }
        if y.contains(v) {
            let k = choose|k: int| 0 <= k < y.len() && y[k] == v;
            assert(shown(a, v as int));
        }
    }
    assert(x.to_set() =~= y.to_set());
    x.unique_seq_to_set();
    y.unique_seq_to_set();
}

/// Cycling the sort three times from an up-to-date list with the cursor in
/// range gives back the order, the list and the cursor.
pub proof fn law_sort_cycle_returns(a: App, b1: App, b2: App, b3: App)
    requires
        listing_ok(a),
        a.selected_session < a.filtered_indices@.len() || a.selected_session == 0,
        same_but_listing(App { sort_by: next_sort(a.sort_by), ..a }, b1),
        refreshed(b1, a.selected_session),
        same_but_listing(App { sort_by: next_sort(b1.sort_by), ..b1 }, b2),
        refreshed(b2, b1.selected_session),
        same_but_listing(App { sort_by: next_sort(b2.sort_by), ..b2 }, b3),
        refreshed(b3, b2.selected_session),
    ensures
        b3.sort_by == a.sort_by,
        b3.filtered_indices@ == a.filtered_indices@,
        b3.selected_session == a.selected_session,
{
    lemma_listing_len(a, b1);
    lemma_listing_len(a, b2);
    lemma_listing_len(a, b3);
    law_sort_cycle(a.sort_by);
    law_listing_determined(a, b3);
}

/// The listing does not depend on the status line.
pub proof fn lemma_refreshed_status(a: App, b: App, sel: usize)
    requires
        b == (App { status_message: b.status_message, ..a }),
        refreshed(a, sel),
    ensures
        refreshed(b, sel),
{
    assert forall|i: int| 0 <= i < a.sessions@.len() implies shown(a, i) == shown(b, i) by {}
}

impl App {
    /// The selector over `sessions` and `folders`, with the session-to-folder
    /// map `mappings`, filtered on `project_filter` (also remembered as the
    /// current project), in normal mode on the main screen, newest first.
    pub fn new(
        sessions: Vec<Session>,
        folders: Vec<Folder>,
        mappings: StrMap,
        project_filter: Option<String>,
        folders_enabled: bool,
        global_mode: bool,
    ) -> (r: App)
        ensures
            r.sessions == sessions,
            r.folders == folders,
            r.session_folder_map == mappings,
            r.selected_folder == 0,
            r.sort_by == SortBy::Updated,
            r.screen == Screen::Main,
            r.input_mode == InputMode::Normal,
            r.search_query@.len() == 0,
            r.rename_buffer@.len() == 0,
            r.new_folder_buffer@.len() == 0,
            r.confirm_message@.len() == 0,
            r.pending_delete_id is None,
            r.status_message is None,
            r.pending_key is None,
            r.project_filter == project_filter,
            r.current_project == project_filter,
            r.folders_enabled == folders_enabled,
            r.global_mode == global_mode,
            r.command_buffer@.len() == 0,
            r.command_history@.len() == 0,
            r.command_history_pos is None,
            r.command_suggestions@.len() == 0,
            r.selected_suggestion == 0,
            r.preview_scroll == 0,
            refreshed(r, 0),
    {
        let current_project = match &project_filter {
            Some(p) => Some(p.clone()),
            None => None,
        };
        let mut app = App {
            sessions,
            folders,
            session_folder_map: mappings,
            filtered_indices: Vec::new(),
            selected_session: 0,
            selected_folder: 0,
            sort_by: SortBy::Updated,
            screen: Screen::Main,
            input_mode: InputMode::Normal,
            search_query: String::new(),
            rename_buffer: String::new(),
            new_folder_buffer: String::new(),
            confirm_message: String::new(),
            pending_delete_id: None,
            status_message: None,
            pending_key: None,
            project_filter,
            current_project,
            folders_enabled,
            global_mode,
            command_buffer: String::new(),
            command_history: Vec::new(),
            command_history_pos: None,
            command_suggestions: Vec::new(),
            selected_suggestion: 0,
            preview_scroll: 0,
        };
        app.apply_filter_and_sort();
        app
    }

    /// The session under the cursor.
    pub fn current_session(&self) -> (r: Option<&Session>)
        ensures
            match r {
                Some(s) => current_session_of(*self) == Some(*s),
                None => current_session_of(*self) is None,
            },
    {
        if self.selected_session < self.filtered_indices.len() {
            let idx = self.filtered_indices[self.selected_session];
            if idx < self.sessions.len() {
                return Some(&self.sessions[idx]);
            }
        }
        None
    }

    /// The folder selected in the panel.
    pub fn current_folder(&self) -> (r: Option<&Folder>)
        ensures
            match r {
                Some(f) => selected_folder_of(*self) == Some(*f),
                None => selected_folder_of(*self) is None,
            },
    {
        if self.selected_folder < self.folders.len() {
            Some(&self.folders[self.selected_folder])
        } else {
            None
        }
    }

    /// Move the cursor one entry down, stopping at the last.
    pub fn move_selection_down(&mut self)
        ensures
            *final(self) == (App {
                selected_session: if old(self).filtered_indices@.len() > 0 {
                    if old(self).selected_session + 1 <= old(self).filtered_indices@.len() - 1 {
                        (old(self).selected_session + 1) as usize
                    } else {
                        (old(self).filtered_indices@.len() - 1) as usize
                    }
                } else {
                    old(self).selected_session
                },
                ..*old(self)
            }),
    {
        let len = self.filtered_indices.len();
        if len > 0 {
            if self.selected_session >= len - 1 {
                self.selected_session = len - 1;
            } else {
                self.selected_session = self.selected_session + 1;
            }
        }
    }

    /// Move the cursor one entry up, stopping at the first.
    pub fn move_selection_up(&mut self)
        ensures
            *final(self) == (App {
                selected_session: if old(self).selected_session > 0 {
                    (old(self).selected_session - 1) as usize
                } else {
                    0
                },
                ..*old(self)
            }),
    {
        self.selected_session = if self.selected_session > 0 {
            self.selected_session - 1
        } else {
            0
        };
    }

    /// Select the next folder, stopping at the last, and refresh the list.
    pub fn move_folder_down(&mut self)
        ensures
            old(self).folders@.len() == 0 ==> *final(self) == *old(self),
            old(self).folders@.len() > 0 ==> {
                let sf = if old(self).selected_folder + 1 <= old(self).folders@.len() - 1 {
                    (old(self).selected_folder + 1) as usize
                } else {
                    (old(self).folders@.len() - 1) as usize
                };
                &&& same_but_listing(App { selected_folder: sf, ..*old(self) }, *final(self))
                &&& refreshed(*final(self), old(self).selected_session)
            },
    {
        let len = self.folders.len();
        if len > 0 {
            if self.selected_folder >= len - 1 {
                self.selected_folder = len - 1;
            } else {
                self.selected_folder = self.selected_folder + 1;
            }
            self.apply_filter_and_sort();
        }
    }

    /// Select the previous folder, stopping at the first, and refresh the list.
    pub fn move_folder_up(&mut self)
        ensures
            same_but_listing(
                App {
                    selected_folder: if old(self).selected_folder > 0 {
                        (old(self).selected_folder - 1) as usize
                    } else {
                        0
                    },
                    ..*old(self)
                },
                *final(self),
            ),
            refreshed(*final(self), old(self).selected_session),
    {
        self.selected_folder = if self.selected_folder > 0 {
            self.selected_folder - 1
        } else {
            0
        };
        self.apply_filter_and_sort();
    }

    /// Search for `query`, from the top of the list.
    pub fn set_search_query(&mut self, query: String)
        ensures
            same_but_listing(App { search_query: query, ..*old(self) }, *final(self)),
            refreshed(*final(self), 0),
    {
        self.search_query = query;
        self.selected_session = 0;
        self.apply_filter_and_sort();
    }

    /// Switch to the next sort order (updated, created, title, updated, ...).
    pub fn cycle_sort(&mut self)
        ensures
            same_but_listing(App { sort_by: next_sort(old(self).sort_by), ..*old(self) }, *final(self)),
            refreshed(*final(self), old(self).selected_session),
    {
        self.sort_by = match self.sort_by {
            SortBy::Updated => SortBy::Created,
            SortBy::Created => SortBy::Title,
            SortBy::Title => SortBy::Updated,
        };
        self.apply_filter_and_sort();
    }

    /// Show `message` on the status line.
    pub fn set_status(&mut self, message: &str)
        ensures
            *final(self) == (App { status_message: final(self).status_message, ..*old(self) }),
            status_is(*final(self), message@),
    {
        self.status_message = Some(message.to_owned());
    }

    /// Clear the status line.
    pub fn clear_status(&mut self)
        ensures
            *final(self) == (App { status_message: None, ..*old(self) }),
    {
        self.status_message = None;
    }

    /// Switch between the current project and all projects.
    pub fn toggle_project_filter(&mut self)
        ensures
            project_filter_toggled(*old(self), *final(self)),
    {
        if self.project_filter.is_some() {
            self.project_filter = None;
            self.set_status("Showing all projects");
        } else {
            self.project_filter = match &self.current_project {
                Some(p) => Some(p.clone()),
                None => None,
            };
            match &self.current_project {
                Some(pid) => {
                    let msg = concat("Filtered to project ", pid.as_str());
                    self.status_message = Some(msg);
                },
                None => {},
            }
        }
        self.apply_filter_and_sort();
    }

    /// Filter on `project_id` (or on no project).
    pub fn set_project_filter(&mut self, project_id: Option<String>)
        ensures
            same_but_listing(App { project_filter: project_id, ..*old(self) }, *final(self)),
            refreshed(*final(self), old(self).selected_session),
    {
        self.project_filter = project_id;
        self.apply_filter_and_sort();
    }

    /// Turn the folder panel on or off.
    pub fn toggle_folders(&mut self)
        ensures
            *final(self) == (App {
                folders_enabled: !old(self).folders_enabled,
                status_message: final(self).status_message,
                ..*old(self)
            }),
            status_is(
                *final(self),
                if final(self).folders_enabled {
                    "Folders enabled"@
                } else {
                    "Folders disabled"@
                },
            ),
    {
        self.folders_enabled = !self.folders_enabled;
        if self.folders_enabled {
            self.set_status("Folders enabled");
        } else {
            self.set_status("Folders disabled");
        }
    }

    /// Put the selected suggestion on the command line.
    pub fn accept_suggestion(&mut self)
        ensures
            old(self).command_suggestions@.len() == 0 ==> *final(self) == *old(self),
            old(self).command_suggestions@.len() > 0 ==> {
                let n = old(self).command_suggestions@.len();
                let sel = if old(self).selected_suggestion < n {
                    old(self).selected_suggestion as int
                } else {
                    n - 1
                };
                &&& final(self).command_buffer@ == old(self).command_suggestions@[sel].text@
                &&& *final(self) == (App {
                    command_buffer: final(self).command_buffer,
                    command_suggestions: final(self).command_suggestions,
                    selected_suggestion: 0,
                    ..*old(self)
                })
                &&& final(self).command_suggestions@.len() == 0
            },
    {
        let n = self.command_suggestions.len();
        if n == 0 {
            return;
        }
        let sel = if self.selected_suggestion < n {
            self.selected_suggestion
        } else {
            n - 1
        };
        self.command_buffer = self.command_suggestions[sel].text.clone();
        self.command_suggestions = Vec::new();
        self.selected_suggestion = 0;
    }

    /// Whether session `i` passes the filters; `q` is the lowercased query.
    fn session_shown(&self, i: usize, folder_id: Option<&str>, q: &[char]) -> (r: bool)
        requires
            i < self.sessions@.len(),
            q@ == lowercase(self.search_query@),
            match folder_id {
                Some(f) => selected_folder_of(*self) matches Some(sf) && sf.id@ == f@,
                None => selected_folder_of(*self) is None,
            },
        ensures
            r == shown(*self, i as int),
    {
        let s = &self.sessions[i];
        match &self.project_filter {
            Some(pid) => {
                if !str_eq(s.project_id.as_str(), pid.as_str()) {
                    return false;
                }
            },
            None => {},
        }
        match folder_id {
            Some(fid) => {
                if !str_eq(fid, "all") {
                    match self.session_folder_map.get(s.id.as_str()) {
                        Some(f) => {
                            if !str_eq(f, fid) {
                                return false;
                            }
                        },
                        None => {
                            return false;
                        },
                    }
                }
            },
            None => {},
        }
        if self.search_query.as_str().is_empty() {
            return true;
        }
        let t = to_lowercase(s.display_title());
        if contains_seq(&chars_of(t.as_str()), q) {
            return true;
        }
        let sl = to_lowercase(s.slug.as_str());
        if contains_seq(&chars_of(sl.as_str()), q) {
            return true;
        }
        let pn = to_lowercase(s.project_name.as_str());
        if contains_seq(&chars_of(pn.as_str()), q) {
            return true;
        }
        match &s.first_message_preview {
            Some(m) => {
                let ml = to_lowercase(m.as_str());
                contains_seq(&chars_of(ml.as_str()), q)
            },
            None => false,
        }
    }

    /// Recompute the session list for the current filters and order, and keep
    /// the selection in range.
    pub fn apply_filter_and_sort(&mut self)
        ensures
            same_but_listing(*old(self), *final(self)),
            refreshed(*final(self), old(self).selected_session),
    {
        let folder_id: Option<&str> = match self.current_folder() {
            Some(f) => Some(f.id.as_str()),
            None => None,
        };
        let ql = to_lowercase(self.search_query.as_str());
        let q = chars_of(ql.as_str());
        let mut keyed: Vec<Keyed> = Vec::new();
        let n = self.sessions.len();
        let mut i: usize = 0;
        while i < n
            invariant
                n == self.sessions@.len(),
                i <= n,
                q@ == lowercase(self.search_query@),
                match folder_id {
                    Some(f) => selected_folder_of(*self) matches Some(sf) && sf.id@ == f@,
                    None => selected_folder_of(*self) is None,
                },
                forall|k: int| 0 <= k < keyed@.len() ==> {
                    &&& keyed@[k].index < i
                    &&& shown(*self, keyed@[k].index as int)
                    &&& key_of(keyed@[k]) == sort_key(
                        self.sessions@[keyed@[k].index as int],
                        self.sort_by,
                        keyed@[k].index as int,
                    )
                },
                forall|a: int, b: int| 0 <= a < b < keyed@.len() ==> keyed@[a].index < keyed@[b].index,
                forall|j: int| 0 <= j < i && shown(*self, j) ==> exists|k: int|
                    0 <= k < keyed@.len() && keyed@[k].index == j,
            decreases n - i,
        {
            let ghost before = keyed@;
            if self.session_shown(i, folder_id, &q) {
                let s = &self.sessions[i];
                let primary: i128 = match self.sort_by {
                    SortBy::Updated => -(s.updated_at as i128),
                    SortBy::Created => -(s.created_at as i128),
                    SortBy::Title => 0,
                };
                let k = Keyed { primary, text: chars_of(s.title.as_str()), index: i };
                keyed.push(k);
                proof {
                    let last = keyed@.len() - 1;
                    assert(keyed@[last].index == i);
                }
            }
            proof {
                assert forall|j: int| 0 <= j < i + 1 && shown(*self, j) implies exists|k: int|
                    0 <= k < keyed@.len() && keyed@[k].index == j by {
                    if j == i {
                        assert(keyed@[keyed@.len() - 1].index == i);
                    } else {
                        let k = choose|k: int| 0 <= k < before.len() && before[k].index == j;
                        assert(keyed@[k] == before[k]);
                    }
                }
            }
            i = i + 1;
        }
        let sorted = sort_keyed(keyed);
        let ghost ks = keys_of(keyed@);
        let mut out: Vec<usize> = Vec::new();
        let mut k: usize = 0;
        while k < sorted.len()
            invariant
                k <= sorted@.len(),
                out@.len() == k,
                forall|m: int| 0 <= m < k ==> out@[m] as int == keys_of(sorted@)[m].index,
            decreases sorted@.len() - k,
        {
            out.push(sorted[k].index);
            k = k + 1;
        }
        proof {
            let ss = keys_of(sorted@);
            assert forall|m: int| 0 <= m < ss.len() implies ks.contains(ss[m]) by {
                assert(ss.contains(ss[m]));
            }
            assert forall|m: int| 0 <= m < ss.len() implies {
                &&& ss[m].index < n
                &&& shown(*self, ss[m].index)
                &&& ss[m] == sort_key(self.sessions@[ss[m].index], self.sort_by, ss[m].index)
            } by {
                let j = choose|j: int| 0 <= j < ks.len() && ks[j] == ss[m];
                assert(ks[j] == key_of(keyed@[j]));
            }
            assert forall|j: int| 0 <= j < n && shown(*self, j) implies out@.contains(j as usize) by {
                let kk = choose|kk: int| 0 <= kk < keyed@.len() && keyed@[kk].index == j;
                assert(ks[kk] == key_of(keyed@[kk]));
                assert(ks.contains(ks[kk]));
                assert(ss.contains(ks[kk]));
                let m = choose|m: int| 0 <= m < ss.len() && ss[m] == ks[kk];
                assert(out@[m] == j as usize);
            }
        }
        let new_sel = if self.selected_session >= out.len() {
            if out.len() == 0 {
                0
            } else {
                out.len() - 1
            }
        } else {
            self.selected_session
        };
        let ghost pre = *self;
        self.selected_session = new_sel;
        self.filtered_indices = out;
        proof {
            let ss = keys_of(sorted@);
            assert forall|j: int| 0 <= j < n implies shown(*self, j) == shown(pre, j) by {}
            assert forall|a: int, b: int| 0 <= a < b < out@.len() implies key_lt(
                sort_key(self.sessions@[out@[a] as int], self.sort_by, out@[a] as int),
                sort_key(self.sessions@[out@[b] as int], self.sort_by, out@[b] as int),
            ) by {
                assert(key_lt(ss[a], ss[b]));
            }
            let idx = self.filtered_indices@;
            assert(idx == out@);
            assert forall|k: int| 0 <= k < idx.len() implies idx[k] < self.sessions@.len() && shown(*self, idx[k] as int) by {
                assert(idx[k] as int == ss[k].index);
                assert(shown(pre, ss[k].index));
            }
            assert forall|j: int| 0 <= j < self.sessions@.len() && shown(*self, j) implies idx.contains(j as usize) by {
                assert(shown(pre, j));
            }
            assert(listing_ok(*self));
        }
    }
}

} // verus!
