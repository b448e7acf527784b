//! Key handling: what each key does to the selector's state, and which
//! work outside the library it asks for.
use vstd::prelude::*;
use crate::app::{
    lemma_refreshed_status, App, CommandResult, InputMode, Screen, current_session_of, refreshed,
    same_but_listing, status_is, selected_folder_of,
};
use crate::commands::{command_done, suggestions_recomputed};
use crate::folders::{FolderError, FolderStore, has_folder, moved};
use crate::model::{Folder, FolderView, Session};
use crate::text::{popped, pop_char, alphanumeric, concat, is_alphanumeric, lowercase, push_char, chars_of, to_lowercase, trim, trim_chars, string_of, str_eq};

verus! {

/// A key press, as the terminal reports it.
#[derive(Debug, Clone, Copy, PartialEq, Eq, Structural)]
pub enum Key {
    Char(char),
    Enter,
    Esc,
    Tab,
    BackTab,
    Backspace,
    Up,
    Down,
    Left,
    Right,
    PageUp,
    PageDown,
    Home,
    End,
    Other,
}

/// What the selector asks of its caller after a key.
#[derive(Debug, Clone, PartialEq, Eq)]
pub enum AppEvent {
    /// Keep going.
    Continue,
    /// Open the session `id` in opencode, in directory `cwd` if given.
    LaunchSession { id: String, cwd: Option<String> },
    /// Start a new opencode session.
    LaunchNew,
    /// Leave the selector.
    Quit,
}

/// A change to the folder store that has been made in memory and must now
/// be saved; once saved (or not), `finish_folder_change` completes it.
#[derive(Debug, Clone, PartialEq, Eq)]
pub enum FolderChange {
    Archive { session_id: String },
    Move { session_id: String, folder_id: String, folder_name: String },
    Create { id: String, name: String },
}

/// The result of a key: an event, or work for the caller to do first.
#[derive(Debug, Clone, PartialEq, Eq)]
pub enum Step {
    /// Nothing more to do; hand the event on.
    Done(AppEvent),
    /// Rename the session in the database, then call `finish_rename`.
    RenameSession { id: String, title: String },
    /// Delete the session from the database, then call `finish_delete`.
    DeleteSession { id: String },
    /// Save the folder store, then call `finish_folder_change`.
    SaveFolders(FolderChange),
    /// A counter or history position ran out of range (the preview scroll
    /// at its limit, or a history position past the end).
    Abort,
}

/// One character of a folder id made from a name: a space becomes `-`,
/// letters, digits and `-` stay, anything else goes.
pub open spec fn slug_piece(c: char) -> Seq<char> {
    if c == ' ' {
        seq!['-']
    } else if alphanumeric(c) || c == '-' {
        seq![c]
    } else {
        Seq::empty()
    }
}

/// The characters `cs` made into an id, piece by piece.
pub open spec fn slug_of(cs: Seq<char>) -> Seq<char>
    decreases cs.len(),
{
    if cs.len() == 0 {
        Seq::empty()
    } else {
        slug_of(cs.drop_last()) + slug_piece(cs.last())
    }
}

/// A folder id made from an already lowercased name: spaces turned into
/// `-`, and everything but letters, digits and `-` dropped.
pub fn slug_from_lowercase(lower: &str) -> (r: String)
    ensures
        r@ == slug_of(lower@),
{
    let cs = chars_of(lower);
    let mut out = String::new();
    let mut i: usize = 0;
    while i < cs.len()
        invariant
            i <= cs@.len(),
            cs@ == lower@,
            out@ == slug_of(cs@.take(i as int)),
        decreases cs@.len() - i,
    {
        let c = cs[i];
        assert(cs@.take(i + 1).drop_last() =~= cs@.take(i as int));
        if c == ' ' {
            push_char(&mut out, '-');
        } else if is_alphanumeric(c) || c == '-' {
            push_char(&mut out, c);
        }
        assert(out@ =~= slug_of(cs@.take(i + 1)));
        i = i + 1;
    }
    assert(cs@.take(i as int) =~= cs@);
    out
}

/// A folder id made from a name: lowercased, spaces turned into `-`, and
/// everything but letters, digits and `-` dropped.
pub fn slugify(name: &str) -> (r: String)
    ensures
        r@ == slug_of(lowercase(name@)),
{
    let lower = to_lowercase(name);
    slug_from_lowercase(lower.as_str())
}

/// Folder ids made from names hold only letters, digits and `-`.
pub proof fn law_slug_alphabet(cs: Seq<char>)
    ensures
        forall|i: int|
            0 <= i < slug_of(cs).len() ==> #[trigger] slug_of(cs)[i] == '-' || alphanumeric(slug_of(cs)[i]),
    decreases cs.len(),
{
    if cs.len() > 0 {
        law_slug_alphabet(cs.drop_last());
        let prev = slug_of(cs.drop_last());
        assert forall|i: int| 0 <= i < slug_of(cs).len() implies #[trigger] slug_of(cs)[i] == '-'
            || alphanumeric(slug_of(cs)[i]) by {
            if i < prev.len() {
                assert(slug_of(cs)[i] == prev[i]);
            }
        }
    }
}

/// `b` is `a` with the status line showing `msg`.
pub open spec fn status_only(a: App, b: App, msg: Seq<char>) -> bool {
    b == (App { status_message: b.status_message, ..a }) && status_is(b, msg)
}

/// Start renaming the session under the cursor.
pub open spec fn rename_started(a: App, b: App) -> bool {
    match current_session_of(a) {
        Some(s) => {
            &&& b == (App {
                rename_buffer: b.rename_buffer,
                confirm_message: b.confirm_message,
                screen: Screen::Rename,
                input_mode: InputMode::Rename,
                ..a
            })
            &&& b.rename_buffer@ == s.title@
            &&& b.confirm_message@ == "Rename '"@ + s.shown_title() + "' to:"@
        },
        None => b == a,
    }
}

/// Ask to confirm deleting the session under the cursor.
pub open spec fn delete_started(a: App, b: App) -> bool {
    match current_session_of(a) {
        Some(s) => {
            &&& b == (App {
                pending_delete_id: b.pending_delete_id,
                confirm_message: b.confirm_message,
                screen: Screen::ConfirmDelete,
                input_mode: InputMode::Confirm,
                ..a
            })
            &&& b.pending_delete_id matches Some(id) && id@ == s.id@
            &&& b.confirm_message@ == "Permanently delete '"@ + s.shown_title() + "' ?"@
        },
        None => b == a,
    }
}

/// Open the folder picker for the session under the cursor.
pub open spec fn move_started(a: App, b: App) -> bool {
    if current_session_of(a) is Some {
        &&& b == (App { screen: Screen::MoveToFolder, confirm_message: b.confirm_message, ..a })
        &&& b.confirm_message@ == "Select folder:"@
    } else {
        b == a
    }
}

/// Open the prompt for a new folder's name.
pub open spec fn new_folder_started(a: App, b: App) -> bool {
    &&& b == (App {
        new_folder_buffer: b.new_folder_buffer,
        screen: Screen::NewFolder,
        input_mode: InputMode::NewFolder,
        ..a
    })
    &&& b.new_folder_buffer@.len() == 0
}

/// The index of the first folder with id `id`.
pub open spec fn folder_position(fs: Seq<Folder>, id: Seq<char>) -> Option<int>
    decreases fs.len(),
{
    if fs.len() == 0 {
        None
    } else {
        match folder_position(fs.drop_last(), id) {
            Some(i) => Some(i),
            None => if fs.last().id@ == id {
                Some(fs.len() - 1)
            } else {
                None
            },
        }
    }
}

/// Select the folder `id`, if there is one, and refresh the list.
pub open spec fn jumped(a: App, b: App, id: Seq<char>) -> bool {
    match folder_position(a.folders@, id) {
        Some(i) => same_but_listing(App { selected_folder: i as usize, ..a }, b) && refreshed(
            b,
            a.selected_session,
        ),
        None => b == a,
    }
}

impl App {
    /// Start renaming the session under the cursor.
    pub fn start_rename(&mut self)
        ensures
            rename_started(*old(self), *final(self)),
    {
        match self.current_session() {
            Some(s) => {
                let title = s.title.clone();
                let m1 = concat("Rename '", s.display_title());
                let m = concat(m1.as_str(), "' to:");
                self.rename_buffer = title;
                self.confirm_message = m;
                self.screen = Screen::Rename;
                self.input_mode = InputMode::Rename;
            },
            None => {},
        }
    }

    /// Ask to confirm deleting the session under the cursor.
    pub fn start_delete(&mut self)
        ensures
            delete_started(*old(self), *final(self)),
    {
        match self.current_session() {
            Some(s) => {
                let id = s.id.clone();
                let m1 = concat("Permanently delete '", s.display_title());
                let m = concat(m1.as_str(), "' ?");
                self.pending_delete_id = Some(id);
                self.confirm_message = m;
                self.screen = Screen::ConfirmDelete;
                self.input_mode = InputMode::Confirm;
            },
            None => {},
        }
    }

    /// Open the folder picker for the session under the cursor.
    pub fn start_move(&mut self)
        ensures
            move_started(*old(self), *final(self)),
    {
        if self.current_session().is_some() {
            self.screen = Screen::MoveToFolder;
            self.confirm_message = "Select folder:".to_owned();
        }
    }

    /// Open the prompt for a new folder's name.
    pub fn start_new_folder(&mut self)
        ensures
            new_folder_started(*old(self), *final(self)),
    {
        self.new_folder_buffer = String::new();
        self.screen = Screen::NewFolder;
        self.input_mode = InputMode::NewFolder;
    }

    /// Select the folder `folder_id`, if there is one.
    pub fn jump_to_folder(&mut self, folder_id: &str)
        ensures
            jumped(*old(self), *final(self), folder_id@),
    {
        let mut i: usize = 0;
        assert(self.folders@.take(0) =~= Seq::<Folder>::empty());
        while i < self.folders.len()
            invariant
                *self == *old(self),
                i <= self.folders@.len(),
                folder_position(self.folders@.take(i as int), folder_id@) is None,
            decreases self.folders@.len() - i,
        {
            assert(self.folders@.take(i + 1).drop_last() =~= self.folders@.take(i as int));
            if str_eq(self.folders[i].id.as_str(), folder_id) {
                proof {
                    lemma_folder_position_prefix(self.folders@, folder_id@, i + 1);
                }
                self.selected_folder = i;
                self.apply_filter_and_sort();
                return;
            }
            i = i + 1;
        }
        assert(self.folders@.take(i as int) =~= self.folders@);
    }
}

/// The index of the first session with id `id`.
pub open spec fn session_position(ss: Seq<Session>, id: Seq<char>) -> Option<int>
    decreases ss.len(),
{
    if ss.len() == 0 {
        None
    } else {
        match session_position(ss.drop_last(), id) {
            Some(i) => Some(i),
            None => if ss.last().id@ == id {
                Some(ss.len() - 1)
            } else {
                None
            },
        }
    }
}

/// The session is not `id`.
pub open spec fn session_not_id(id: Seq<char>) -> spec_fn(Session) -> bool {
    |s: Session| s.id@ != id
}

/// The store's contents are unchanged.
pub open spec fn store_same(x: FolderStore, y: FolderStore) -> bool {
    &&& y.folders_view() == x.folders_view()
    &&& y.mappings_view() == x.mappings_view()
    &&& y.path_view() == x.path_view()
}

/// The session under the cursor goes to the Archive folder: in the store at
/// once, and in the state once the store is saved. Without an Archive
/// folder nothing moves and the status says why.
pub open spec fn archive_done(a: App, sa: FolderStore, b: App, sb: FolderStore, step: Step) -> bool {
    match current_session_of(a) {
        Some(s) => if has_folder(sa.folders_view(), "archive"@) {
            &&& b == a
            &&& sb.mappings_view() == moved(sa.mappings_view(), s.id@, "archive"@)
            &&& sb.folders_view() == sa.folders_view()
            &&& sb.path_view() == sa.path_view()
            &&& step matches Step::SaveFolders(FolderChange::Archive { session_id }) && session_id@ == s.id@
        } else {
            &&& store_same(sa, sb)
            &&& status_only(a, b, "Archive failed: "@ + "folder "@ + "archive"@ + " not found"@)
            &&& step == Step::Done(AppEvent::Continue)
        },
        None => b == a && store_same(sa, sb) && step == Step::Done(AppEvent::Continue),
    }
}

/// How the status line introduces a failed folder change.
pub open spec fn failure_prefix(change: FolderChange) -> Seq<char> {
    match change {
        FolderChange::Archive { .. } => "Archive failed: "@,
        FolderChange::Move { .. } => "Move failed: "@,
        FolderChange::Create { .. } => "Create folder failed: "@,
    }
}

/// A folder change completed: on success the state follows the store, on
/// failure the status reports `what failed: error`.
pub open spec fn change_finished(a: App, change: FolderChange, saved: Result<(), String>, b: App) -> bool {
    match saved {
        Err(e) => status_only(a, b, failure_prefix(change) + e@),
        Ok(_) => match change {
            FolderChange::Archive { session_id } => {
                &&& b.session_folder_map@ == a.session_folder_map@.insert(session_id@, "archive"@)
                &&& same_but_listing(
                    App { session_folder_map: b.session_folder_map, status_message: b.status_message, ..a },
                    b,
                )
                &&& refreshed(b, a.selected_session)
                &&& status_is(b, "Session archived"@)
            },
            FolderChange::Move { session_id, folder_id, folder_name } => {
                &&& b.session_folder_map@ == a.session_folder_map@.insert(session_id@, folder_id@)
                &&& same_but_listing(
                    App { session_folder_map: b.session_folder_map, status_message: b.status_message, ..a },
                    b,
                )
                &&& refreshed(b, a.selected_session)
                &&& status_is(b, "Moved to "@ + folder_name@)
            },
            FolderChange::Create { id, name } => {
                &&& b == (App { folders: b.folders, status_message: b.status_message, ..a })
                &&& b.folders@.len() == a.folders@.len() + 1
                &&& b.folders@.drop_last() == a.folders@
                &&& b.folders@.last()@ == (FolderView { id: id@, name: name@, parent_id: None })
                &&& status_is(b, "Created folder "@ + name@)
            },
        },
    }
}

/// A rename completed: on success the first session with the id gets the
/// title and the list is refreshed.
pub open spec fn rename_finished(a: App, id: Seq<char>, title: Seq<char>, result: Result<(), String>, b: App) -> bool {
    match result {
        Err(e) => status_only(a, b, "Rename failed: "@ + e@),
        Ok(_) => {
            &&& b.sessions@.len() == a.sessions@.len()
            &&& match session_position(a.sessions@, id) {
                Some(i) => {
                    &&& forall|j: int| 0 <= j < a.sessions@.len() && j != i ==> b.sessions@[j] == a.sessions@[j]
                    &&& b.sessions@[i] == (Session { title: b.sessions@[i].title, ..a.sessions@[i] })
                    &&& b.sessions@[i].title@ == title
                },
                None => b.sessions@ == a.sessions@,
            }
            &&& same_but_listing(App { sessions: b.sessions, status_message: b.status_message, ..a }, b)
            &&& refreshed(b, a.selected_session)
            &&& status_is(b, "Session renamed"@)
        },
    }
}

/// A deletion completed: on success the session leaves the list, the
/// folder map and the store.
pub open spec fn delete_finished(
    a: App,
    sa: FolderStore,
    id: Seq<char>,
    result: Result<(), String>,
    b: App,
    sb: FolderStore,
) -> bool {
    match result {
        Err(e) => status_only(a, b, "Delete failed: "@ + e@) && store_same(sa, sb),
        Ok(_) => {
            &&& b.sessions@ == a.sessions@.filter(session_not_id(id))
            &&& b.session_folder_map@ == a.session_folder_map@.remove(id)
            &&& same_but_listing(
                App {
                    sessions: b.sessions,
                    session_folder_map: b.session_folder_map,
                    status_message: b.status_message,
                    ..a
                },
                b,
            )
            &&& refreshed(b, a.selected_session)
            &&& status_is(b, "Session deleted"@)
            &&& sb.mappings_view() == sa.mappings_view().filter(crate::folders::session_not(id))
            &&& sb.folders_view() == sa.folders_view()
            &&& sb.path_view() == sa.path_view()
        },
    }
}

/// Archive the session under the cursor.
pub fn archive_current(app: &mut App, store: &mut FolderStore) -> (step: Step)
    ensures
        archive_done(*old(app), *old(store), *final(app), *final(store), step),
{
    match app.current_session() {
        Some(s) => {
            let id = s.id.clone();
            proof {
                reveal_strlit("archive");
                reveal_strlit("all");
            }
            assert("archive"@.len() != "all"@.len());
            match store.move_session(id.as_str(), "archive") {
                Ok(()) => Step::SaveFolders(FolderChange::Archive { session_id: id }),
                Err(e) => {
                    assert(e matches FolderError::NotFound(x) && x@ == "archive"@);
                    let msg = e.message();
                    let m = concat("Archive failed: ", msg.as_str());
                    app.set_status(m.as_str());
                    assert(m@ =~= "Archive failed: "@ + "folder "@ + "archive"@ + " not found"@);
                    Step::Done(AppEvent::Continue)
                },
            }
        },
        None => Step::Done(AppEvent::Continue),
    }
}

/// Complete a folder change once the store has been saved (`Ok`) or not.
pub fn finish_folder_change(app: &mut App, change: FolderChange, saved: Result<(), String>)
    ensures
        change_finished(*old(app), change, saved, *final(app)),
{
    match saved {
        Err(e) => {
            let what = match &change {
                FolderChange::Archive { .. } => "Archive failed: ",
                FolderChange::Move { .. } => "Move failed: ",
                FolderChange::Create { .. } => "Create folder failed: ",
            };
            assert(what@ == failure_prefix(change));
            let m = concat(what, e.as_str());
            app.set_status(m.as_str());
        },
        Ok(()) => match change {
            FolderChange::Archive { session_id } => {
                app.session_folder_map.insert(session_id, "archive".to_owned());
                app.set_status("Session archived");
                app.apply_filter_and_sort();
            },
            FolderChange::Move { session_id, folder_id, folder_name } => {
                app.session_folder_map.insert(session_id, folder_id);
                let m = concat("Moved to ", folder_name.as_str());
                app.set_status(m.as_str());
                app.apply_filter_and_sort();
            },
            FolderChange::Create { id, name } => {
                let f = Folder::new(id.as_str(), name.as_str());
                app.folders.push(f);
                assert(app.folders@.drop_last() =~= old(app).folders@);
                let m = concat("Created folder ", name.as_str());
                app.set_status(m.as_str());
            },
        },
    }
}

/// Complete a rename once the database has been updated (`Ok`) or not.
pub fn finish_rename(app: &mut App, id: &str, title: String, result: Result<(), String>)
    ensures
        rename_finished(*old(app), id@, title@, result, *final(app)),
{
    match result {
        Err(e) => {
            let m = concat("Rename failed: ", e.as_str());
            app.set_status(m.as_str());
        },
        Ok(()) => {
            match find_session(&app.sessions, id) {
                Some(i) => {
                    let mut s = app.sessions.remove(i);
                    s.title = title;
                    app.sessions.insert(i, s);
                },
                None => {},
            }
            app.apply_filter_and_sort();
            let ghost mid = *app;
            app.set_status("Session renamed");
            proof {
                lemma_refreshed_status(mid, *app, old(app).selected_session);
            }
        },
    }
}

/// Complete a deletion once the database has been updated (`Ok`) or not.
pub fn finish_delete(app: &mut App, store: &mut FolderStore, id: &str, result: Result<(), String>)
    ensures
        delete_finished(*old(app), *old(store), id@, result, *final(app), *final(store)),
{
    match result {
        Err(e) => {
            let m = concat("Delete failed: ", e.as_str());
            app.set_status(m.as_str());
        },
        Ok(()) => {
            let n = app.sessions.len();
            let ghost orig = app.sessions@;
            let mut rest: Vec<Session> = Vec::new();
            std::mem::swap(&mut rest, &mut app.sessions);
            let mut kept: Vec<Session> = Vec::new();
            let mut k: usize = 0;
            assert(orig.skip(0) =~= orig);
            while rest.len() > 0
                invariant
                    n == orig.len(),
                    k <= orig.len(),
                    rest@ == orig.skip(k as int),
                    kept@ == orig.take(k as int).filter(session_not_id(id@)),
                decreases rest@.len(),
            {
                proof {
                    assert(orig.take(k + 1).drop_last() =~= orig.take(k as int));
                    reveal_with_fuel(Seq::filter, 1);
                }
                let s = rest.remove(0);
                assert(orig.skip(k + 1) =~= rest@);
                assert(orig.take(k + 1).last() == s);
                if !str_eq(s.id.as_str(), id) {
                    kept.push(s);
                }
                k = k + 1;
            }
            assert(orig.take(k as int) =~= orig);
            app.sessions = kept;
            app.session_folder_map.remove(id);
            store.unassign_session(id);
            app.set_status("Session deleted");
            app.apply_filter_and_sort();
        },
    }
}

/// The index of the first session with id `id`.
fn find_session(sessions: &Vec<Session>, id: &str) -> (r: Option<usize>)
    ensures
        match r {
            Some(i) => session_position(sessions@, id@) == Some(i as int) && i < sessions@.len(),
            None => session_position(sessions@, id@) is None,
        },
{
    let mut i: usize = 0;
    assert(sessions@.take(0) =~= Seq::<Session>::empty());
    while i < sessions.len()
        invariant
            i <= sessions@.len(),
            session_position(sessions@.take(i as int), id@) is None,
        decreases sessions@.len() - i,
    {
        assert(sessions@.take(i + 1).drop_last() =~= sessions@.take(i as int));
        if str_eq(sessions[i].id.as_str(), id) {
            proof {
                lemma_session_position_prefix(sessions@, id@, i + 1);
            }
            return Some(i);
        }
        i = i + 1;
    }
    assert(sessions@.take(i as int) =~= sessions@);
    None
}

/// `a` with the main screen shown and keys going to the list.
pub open spec fn back_to_main(a: App) -> App {
    App { screen: Screen::Main, input_mode: InputMode::Normal, ..a }
}

/// A key in the search box.
pub open spec fn search_key_done(a: App, key: Key, b: App) -> bool {
    match key {
        Key::Enter => b == (App { input_mode: InputMode::Normal, ..a }),
        Key::Esc => {
            &&& b.search_query@.len() == 0
            &&& same_but_listing(App { input_mode: InputMode::Normal, search_query: b.search_query, ..a }, b)
            &&& refreshed(b, a.selected_session)
        },
        Key::Backspace => {
            &&& b.search_query@ == popped(a.search_query@)
            &&& same_but_listing(App { search_query: b.search_query, ..a }, b)
            &&& refreshed(b, a.selected_session)
        },
        Key::Char(c) => {
            &&& b.search_query@ == a.search_query@.push(c)
            &&& same_but_listing(App { search_query: b.search_query, ..a }, b)
            &&& refreshed(b, a.selected_session)
        },
        _ => b == a,
    }
}

/// Handle a key in the search box.
pub fn handle_search_key(app: &mut App, key: Key) -> (r: AppEvent)
    ensures
        search_key_done(*old(app), key, *final(app)),
        r == AppEvent::Continue,
{
    match key {
        Key::Enter => {
            app.input_mode = InputMode::Normal;
        },
        Key::Esc => {
            app.input_mode = InputMode::Normal;
            app.search_query = String::new();
            app.apply_filter_and_sort();
        },
        Key::Backspace => {
            pop_char(&mut app.search_query);
            app.apply_filter_and_sort();
        },
        Key::Char(c) => {
            push_char(&mut app.search_query, c);
            app.apply_filter_and_sort();
        },
        _ => {},
    }
    AppEvent::Continue
}

/// The number of `\n` in `s`.
pub open spec fn newlines(s: Seq<char>) -> nat
    decreases s.len(),
{
    if s.len() == 0 {
        0
    } else {
        newlines(s.drop_last()) + if s.last() == '\n' {
            1nat
        } else {
            0nat
        }
    }
}

/// The number of lines `str::lines` yields: lines end at `\n`, and a final
/// line ending adds no empty line.
pub open spec fn line_count(s: Seq<char>) -> nat {
    if s.len() == 0 {
        0
    } else if s.last() == '\n' {
        newlines(s)
    } else {
        newlines(s) + 1
    }
}

proof fn lemma_newlines_len(s: Seq<char>)
    ensures
        newlines(s) <= s.len(),
    decreases s.len(),
{
    if s.len() > 0 {
        lemma_newlines_len(s.drop_last());
    }
}

/// Counts the lines of `s`, as `s.lines().count()`.
pub fn count_lines(s: &str) -> (r: usize)
    ensures
        r == line_count(s@),
{
    let cs = chars_of(s);
    let mut n: usize = 0;
    let mut i: usize = 0;
    while i < cs.len()
        invariant
            cs@ == s@,
            i <= cs@.len(),
            n == newlines(cs@.take(i as int)),
            n <= i,
        decreases cs@.len() - i,
    {
        assert(cs@.take(i + 1).drop_last() =~= cs@.take(i as int));
        if cs[i] == '\n' {
            n = n + 1;
        }
        i = i + 1;
    }
    assert(cs@.take(i as int) =~= cs@);
    if cs.len() == 0 || cs[cs.len() - 1] == '\n' {
        n
    } else {
        proof {
            lemma_newlines_len(cs@.drop_last());
        }
        n + 1
    }
}

/// The preview is this many lines taller than its message.
pub open spec fn preview_height(a: App) -> int {
    match current_session_of(a) {
        Some(s) => match s.first_message_preview {
            Some(p) => line_count(p@) as int + 9,
            None => 9,
        },
        None => 9,
    }
}

/// A key on the preview screen; `None` when scrolling down would overflow
/// the scroll position.
pub open spec fn preview_key_done(a: App, key: Key, b: App, ok: bool) -> bool {
    let sc = a.preview_scroll;
    match key {
        Key::Esc | Key::Char('q') | Key::Char('p') => ok && b == (App {
            screen: Screen::Main,
            preview_scroll: 0,
            ..a
        }),
        Key::Up | Key::Char('k') => ok && b == (App {
            preview_scroll: if sc > 0 {
                (sc - 1) as u16
            } else {
                0
            },
            ..a
        }),
        Key::Down | Key::Char('j') => {
            let max_scroll = preview_height(a) - 20;
            if sc < max_scroll {
                if sc < u16::MAX {
                    ok && b == (App { preview_scroll: (sc + 1) as u16, ..a })
                } else {
                    !ok && b == a
                }
            } else {
                ok && b == a
            }
        },
        Key::PageUp => ok && b == (App {
            preview_scroll: if sc > 20 {
                (sc - 20) as u16
            } else {
                0
            },
            ..a
        }),
        Key::PageDown => ok && b == (App {
            preview_scroll: if sc + 20 < u16::MAX {
                (sc + 20) as u16
            } else {
                u16::MAX
            },
            ..a
        }),
        Key::Home => ok && b == (App { preview_scroll: 0, ..a }),
        Key::End => ok && b == (App { preview_scroll: u16::MAX, ..a }),
        _ => ok && b == a,
    }
}

/// Handle a key on the preview screen.
pub fn handle_preview_key(app: &mut App, key: Key) -> (ok: bool)
    ensures
        preview_key_done(*old(app), key, *final(app), ok),
{
    match key {
        Key::Esc | Key::Char('q') | Key::Char('p') => {
            app.screen = Screen::Main;
            app.preview_scroll = 0;
        },
        Key::Up | Key::Char('k') => {
            app.preview_scroll = if app.preview_scroll > 0 {
                app.preview_scroll - 1
            } else {
                0
            };
        },
        Key::Down | Key::Char('j') => {
            let total: u128 = match app.current_session() {
                Some(s) => match &s.first_message_preview {
                    Some(p) => count_lines(p.as_str()) as u128 + 9,
                    None => 9,
                },
                None => 9,
            };
            let max_scroll: u128 = if total > 20 {
                total - 20
            } else {
                0
            };
            if (app.preview_scroll as u128) < max_scroll {
                if app.preview_scroll == u16::MAX {
                    return false;
                }
                app.preview_scroll = app.preview_scroll + 1;
            }
        },
        Key::PageUp => {
            app.preview_scroll = if app.preview_scroll > 20 {
                app.preview_scroll - 20
            } else {
                0
            };
        },
        Key::PageDown => {
            app.preview_scroll = if app.preview_scroll < u16::MAX - 20 {
                app.preview_scroll + 20
            } else {
                u16::MAX
            };
        },
        Key::Home => {
            app.preview_scroll = 0;
        },
        Key::End => {
            app.preview_scroll = u16::MAX;
        },
        _ => {},
    }
    true
}

/// A key while renaming: Enter asks to rename the session under the cursor
/// to the trimmed buffer, if that is not blank and differs from its title.
pub open spec fn rename_key_done(a: App, key: Key, b: App, step: Step) -> bool {
    match key {
        Key::Enter => {
            &&& b == back_to_main(a)
            &&& match current_session_of(a) {
                Some(s) => {
                    let t = trim(a.rename_buffer@);
                    if t.len() > 0 && t != s.title@ {
                        step matches Step::RenameSession { id, title } && id@ == s.id@ && title@ == t
                    } else {
                        step == Step::Done(AppEvent::Continue)
                    }
                },
                None => step == Step::Done(AppEvent::Continue),
            }
        },
        Key::Esc => b == back_to_main(a) && step == Step::Done(AppEvent::Continue),
        Key::Backspace => {
            &&& b == (App { rename_buffer: b.rename_buffer, ..a })
            &&& b.rename_buffer@ == popped(a.rename_buffer@)
            &&& step == Step::Done(AppEvent::Continue)
        },
        Key::Char(c) => {
            &&& b == (App { rename_buffer: b.rename_buffer, ..a })
            &&& b.rename_buffer@ == a.rename_buffer@.push(c)
            &&& step == Step::Done(AppEvent::Continue)
        },
        _ => b == a && step == Step::Done(AppEvent::Continue),
    }
}

/// Handle a key while renaming.
pub fn handle_rename_key(app: &mut App, key: Key) -> (step: Step)
    ensures
        rename_key_done(*old(app), key, *final(app), step),
{
    match key {
        Key::Enter => {
            let mut step = Step::Done(AppEvent::Continue);
            match app.current_session() {
                Some(s) => {
                    let t = trim_chars(&chars_of(app.rename_buffer.as_str()));
                    let title = string_of(&t);
                    if t.len() > 0 && !str_eq(title.as_str(), s.title.as_str()) {
                        step = Step::RenameSession { id: s.id.clone(), title };
                    }
                },
                None => {},
            }
            app.screen = Screen::Main;
            app.input_mode = InputMode::Normal;
            step
        },
        Key::Esc => {
            app.screen = Screen::Main;
            app.input_mode = InputMode::Normal;
            Step::Done(AppEvent::Continue)
        },
        Key::Backspace => {
            pop_char(&mut app.rename_buffer);
            Step::Done(AppEvent::Continue)
        },
        Key::Char(c) => {
            push_char(&mut app.rename_buffer, c);
            Step::Done(AppEvent::Continue)
        },
        _ => Step::Done(AppEvent::Continue),
    }
}

/// A key on the delete confirmation: `y` asks to delete the pending
/// session; `n` or Esc drops it.
pub open spec fn confirm_key_done(a: App, key: Key, b: App, step: Step) -> bool {
    match key {
        Key::Char('y') | Key::Char('Y') => if a.screen == Screen::ConfirmDelete {
            match a.pending_delete_id {
                Some(id) => {
                    &&& b == back_to_main(App { pending_delete_id: None, ..a })
                    &&& step matches Step::DeleteSession { id: x } && x@ == id@
                },
                None => b == back_to_main(a) && step == Step::Done(AppEvent::Continue),
            }
        } else {
            b == back_to_main(a) && step == Step::Done(AppEvent::Continue)
        },
        Key::Esc | Key::Char('n') | Key::Char('N') => {
            &&& b == back_to_main(App { pending_delete_id: None, ..a })
            &&& step == Step::Done(AppEvent::Continue)
        },
        _ => b == a && step == Step::Done(AppEvent::Continue),
    }
}

/// Handle a key on the delete confirmation.
pub fn handle_confirm_key(app: &mut App, key: Key) -> (step: Step)
    ensures
        confirm_key_done(*old(app), key, *final(app), step),
{
    match key {
        Key::Char('y') | Key::Char('Y') => {
            let mut step = Step::Done(AppEvent::Continue);
            if matches!(app.screen, Screen::ConfirmDelete) {
                let pending = app.pending_delete_id.take();
                match pending {
                    Some(id) => {
                        step = Step::DeleteSession { id };
                    },
                    None => {},
                }
            }
            app.screen = Screen::Main;
            app.input_mode = InputMode::Normal;
            step
        },
        Key::Esc | Key::Char('n') | Key::Char('N') => {
            app.pending_delete_id = None;
            app.screen = Screen::Main;
            app.input_mode = InputMode::Normal;
            Step::Done(AppEvent::Continue)
        },
        _ => Step::Done(AppEvent::Continue),
    }
}

/// The next folder in the panel, stopping at the last, with the list
/// refreshed; nothing happens without folders.
pub open spec fn folder_down(a: App, b: App) -> bool {
    if a.folders@.len() == 0 {
        b == a
    } else {
        let sf = if a.selected_folder + 1 <= a.folders@.len() - 1 {
            (a.selected_folder + 1) as usize
        } else {
            (a.folders@.len() - 1) as usize
        };
        same_but_listing(App { selected_folder: sf, ..a }, b) && refreshed(b, a.selected_session)
    }
}

/// The previous folder in the panel, stopping at the first, with the list
/// refreshed.
pub open spec fn folder_up(a: App, b: App) -> bool {
    &&& same_but_listing(
        App {
            selected_folder: if a.selected_folder > 0 {
                (a.selected_folder - 1) as usize
            } else {
                0
            },
            ..a
        },
        b,
    )
    &&& refreshed(b, a.selected_session)
}

/// A key in the folder picker: Enter moves the session under the cursor to
/// the selected folder in the store (or reports why not) and asks for the
/// store to be saved.
pub open spec fn move_key_done(a: App, sa: FolderStore, key: Key, b: App, sb: FolderStore, step: Step) -> bool {
    match key {
        Key::Esc | Key::Char('q') => b == (App { screen: Screen::Main, ..a }) && store_same(sa, sb)
            && step == Step::Done(AppEvent::Continue),
        Key::Up | Key::Char('k') => folder_up(a, b) && store_same(sa, sb) && step == Step::Done(
            AppEvent::Continue,
        ),
        Key::Down | Key::Char('j') => folder_down(a, b) && store_same(sa, sb) && step == Step::Done(
            AppEvent::Continue,
        ),
        Key::Enter => match (current_session_of(a), selected_folder_of(a)) {
            (Some(s), Some(f)) => if f.id@ == "all"@ {
                &&& store_same(sa, sb)
                &&& status_only(
                    App { screen: Screen::Main, ..a },
                    b,
                    "Move failed: "@ + "cannot move sessions to the All folder"@,
                )
                &&& step == Step::Done(AppEvent::Continue)
            } else if !has_folder(sa.folders_view(), f.id@) {
                &&& store_same(sa, sb)
                &&& status_only(
                    App { screen: Screen::Main, ..a },
                    b,
                    "Move failed: "@ + "folder "@ + f.id@ + " not found"@,
                )
                &&& step == Step::Done(AppEvent::Continue)
            } else {
                &&& b == (App { screen: Screen::Main, ..a })
                &&& sb.mappings_view() == moved(sa.mappings_view(), s.id@, f.id@)
                &&& sb.folders_view() == sa.folders_view()
                &&& sb.path_view() == sa.path_view()
                &&& step matches Step::SaveFolders(
                    FolderChange::Move { session_id, folder_id, folder_name },
                ) && session_id@ == s.id@ && folder_id@ == f.id@ && folder_name@ == f.name@
            },
            _ => b == (App { screen: Screen::Main, ..a }) && store_same(sa, sb) && step == Step::Done(
                AppEvent::Continue,
            ),
        },
        _ => b == a && store_same(sa, sb) && step == Step::Done(AppEvent::Continue),
    }
}

/// Handle a key in the folder picker.
pub fn handle_move_folder_key(app: &mut App, store: &mut FolderStore, key: Key) -> (step: Step)
    ensures
        move_key_done(*old(app), *old(store), key, *final(app), *final(store), step),
{
    match key {
        Key::Esc | Key::Char('q') => {
            app.screen = Screen::Main;
            Step::Done(AppEvent::Continue)
        },
        Key::Up | Key::Char('k') => {
            app.move_folder_up();
            Step::Done(AppEvent::Continue)
        },
        Key::Down | Key::Char('j') => {
            app.move_folder_down();
            Step::Done(AppEvent::Continue)
        },
        Key::Enter => {
            let mut step = Step::Done(AppEvent::Continue);
            let target: Option<(String, String, String)> = match (app.current_session(), app.current_folder()) {
                (Some(s), Some(f)) => Some((s.id.clone(), f.id.clone(), f.name.clone())),
                _ => None,
            };
            app.screen = Screen::Main;
            match target {
                Some((sid, fid, fname)) => {
                    match store.move_session(sid.as_str(), fid.as_str()) {
                        Ok(()) => {
                            step = Step::SaveFolders(
                                FolderChange::Move { session_id: sid, folder_id: fid, folder_name: fname },
                            );
                        },
                        Err(e) => {
                            let msg = e.message();
                            let m = concat("Move failed: ", msg.as_str());
                            proof {
                                if fid@ == "all"@ {
                                    assert(m@ =~= "Move failed: "@ + "cannot move sessions to the All folder"@);
                                } else {
                                    assert(m@ =~= "Move failed: "@ + "folder "@ + fid@ + " not found"@);
                                }
                            }
                            app.set_status(m.as_str());
                        },
                    }
                },
                None => {},
            }
            step
        },
        _ => Step::Done(AppEvent::Continue),
    }
}

/// A key in the new-folder prompt: Enter adds a folder named by the trimmed
/// buffer, with an id made from the name, to the store (or reports why not)
/// and asks for the store to be saved.
pub open spec fn new_folder_key_done(a: App, sa: FolderStore, key: Key, b: App, sb: FolderStore, step: Step) -> bool {
    match key {
        Key::Enter => {
            let name = trim(a.new_folder_buffer@);
            let id = slug_of(lowercase(name));
            if name.len() == 0 {
                b == back_to_main(a) && store_same(sa, sb) && step == Step::Done(AppEvent::Continue)
            } else if has_folder(sa.folders_view(), id) {
                &&& store_same(sa, sb)
                &&& status_only(
                    back_to_main(a),
                    b,
                    "Create folder failed: "@ + "folder with id "@ + id + " already exists"@,
                )
                &&& step == Step::Done(AppEvent::Continue)
            } else {
                &&& b == back_to_main(a)
                &&& sb.folders_view() == sa.folders_view().push(
                    FolderView { id, name, parent_id: None },
                )
                &&& sb.mappings_view() == sa.mappings_view()
                &&& sb.path_view() == sa.path_view()
                &&& step matches Step::SaveFolders(FolderChange::Create { id: x, name: y }) && x@ == id
                    && y@ == name
            }
        },
        Key::Esc => b == back_to_main(a) && store_same(sa, sb) && step == Step::Done(AppEvent::Continue),
        Key::Backspace => {
            &&& b == (App { new_folder_buffer: b.new_folder_buffer, ..a })
            &&& b.new_folder_buffer@ == popped(a.new_folder_buffer@)
            &&& store_same(sa, sb)
            &&& step == Step::Done(AppEvent::Continue)
        },
        Key::Char(c) => {
            &&& b == (App { new_folder_buffer: b.new_folder_buffer, ..a })
            &&& b.new_folder_buffer@ == a.new_folder_buffer@.push(c)
            &&& store_same(sa, sb)
            &&& step == Step::Done(AppEvent::Continue)
        },
        _ => b == a && store_same(sa, sb) && step == Step::Done(AppEvent::Continue),
    }
}

/// Handle a key in the new-folder prompt.
pub fn handle_new_folder_key(app: &mut App, store: &mut FolderStore, key: Key) -> (step: Step)
    ensures
        new_folder_key_done(*old(app), *old(store), key, *final(app), *final(store), step),
{
    match key {
        Key::Enter => {
            let mut step = Step::Done(AppEvent::Continue);
            let t = trim_chars(&chars_of(app.new_folder_buffer.as_str()));
            let name = string_of(&t);
            app.screen = Screen::Main;
            app.input_mode = InputMode::Normal;
            if t.len() > 0 {
                let id = slugify(name.as_str());
                match store.add_folder(Folder::new(id.as_str(), name.as_str())) {
                    Ok(()) => {
                        step = Step::SaveFolders(FolderChange::Create { id, name });
                    },
                    Err(e) => {
                        let msg = e.message();
                        let m = concat("Create folder failed: ", msg.as_str());
                        assert(m@ =~= "Create folder failed: "@ + "folder with id "@ + id@ + " already exists"@);
                        app.set_status(m.as_str());
                    },
                }
            }
            step
        },
        Key::Esc => {
            app.screen = Screen::Main;
            app.input_mode = InputMode::Normal;
            Step::Done(AppEvent::Continue)
        },
        Key::Backspace => {
            pop_char(&mut app.new_folder_buffer);
            Step::Done(AppEvent::Continue)
        },
        Key::Char(c) => {
            push_char(&mut app.new_folder_buffer, c);
            Step::Done(AppEvent::Continue)
        },
        _ => Step::Done(AppEvent::Continue),
    }
}

/// What the caller gets once a command ran from state `mid` with result
/// `r`: Quit leaves, an unknown command or an error shows on the status
/// line.
pub open spec fn command_finished(mid: App, r: CommandResult, b: App, step: Step) -> bool {
    match r {
        CommandResult::Quit => b == mid && step == Step::Done(AppEvent::Quit),
        CommandResult::Executed => b == mid && step == Step::Done(AppEvent::Continue),
        CommandResult::Unknown(n) => status_only(mid, b, "Unknown command: :"@ + n@) && step
            == Step::Done(AppEvent::Continue),
        CommandResult::Error(m) => status_only(mid, b, "Command error: "@ + m@) && step == Step::Done(
            AppEvent::Continue,
        ),
    }
}

/// Enter on the command line: the selected suggestion, if any, replaces the
/// line, and keys go back to the list.
pub open spec fn line_entered(a: App, a2: App) -> bool {
    let n = a.command_suggestions@.len();
    &&& a2 == (App {
        command_buffer: a2.command_buffer,
        command_suggestions: a2.command_suggestions,
        selected_suggestion: a2.selected_suggestion,
        input_mode: InputMode::Normal,
        ..a
    })
    &&& if n > 0 {
        let sel = if a.selected_suggestion < n {
            a.selected_suggestion as int
        } else {
            n - 1
        };
        &&& a2.command_buffer@ == a.command_suggestions@[sel].text@
        &&& a2.command_suggestions@.len() == 0
        &&& a2.selected_suggestion == 0
    } else {
        &&& a2.command_buffer == a.command_buffer
        &&& a2.command_suggestions == a.command_suggestions
        &&& a2.selected_suggestion == a.selected_suggestion
    }
}

/// The command line of `x` was edited; its completions are recomputed.
pub open spec fn line_edited(x: App, b: App, step: Step) -> bool {
    suggestions_recomputed(x, b) && step == Step::Done(AppEvent::Continue)
}

/// The selection moved to the next suggestion, wrapping around.
pub open spec fn suggestion_next(a: App, b: App) -> bool {
    let n = a.command_suggestions@.len();
    b == (App { selected_suggestion: ((a.selected_suggestion + 1) % (n as int)) as usize, ..a })
}

/// The selection moved to the previous suggestion, wrapping around.
pub open spec fn suggestion_prev(a: App, b: App) -> bool {
    let n = a.command_suggestions@.len();
    b == (App {
        selected_suggestion: if a.selected_suggestion == 0 {
            (n - 1) as usize
        } else {
            (a.selected_suggestion - 1) as usize
        },
        ..a
    })
}

/// The line replaced by history entry `pos`, with completions recomputed.
pub open spec fn recalled(a: App, pos: int, b: App, step: Step) -> bool {
    &&& b.command_buffer@ == a.command_history@[pos]@
    &&& line_edited(
        App { command_buffer: b.command_buffer, command_history_pos: Some(pos as usize), ..a },
        b,
        step,
    )
}

/// A key on the command line.
pub open spec fn command_key_done(a: App, key: Key, b: App, step: Step) -> bool {
    let n = a.command_suggestions@.len();
    let hl = a.command_history@.len();
    match key {
        Key::Enter => exists|a2: App|
            #[trigger] line_entered(a, a2) && if a2.command_buffer@.len() == 0 {
                b == a2 && step == Step::Done(AppEvent::Continue)
            } else {
                exists|mid: App, r: CommandResult|
                    #[trigger] command_done(a2, a2.command_buffer@, mid, r) && command_finished(
                        mid,
                        r,
                        b,
                        step,
                    )
            },
        Key::Tab => step == Step::Done(AppEvent::Continue) && if n > 0 {
            suggestion_next(a, b)
        } else {
            b == a
        },
        Key::BackTab => step == Step::Done(AppEvent::Continue) && if n > 0 {
            suggestion_prev(a, b)
        } else {
            b == a
        },
        Key::Esc | Key::Char('q') => b == (App { input_mode: InputMode::Normal, ..a }) && step
            == Step::Done(AppEvent::Continue),
        Key::Up => if n > 0 {
            suggestion_prev(a, b) && step == Step::Done(AppEvent::Continue)
        } else if hl == 0 {
            b == a && step == Step::Done(AppEvent::Continue)
        } else {
            let pos = match a.command_history_pos {
                Some(p) => p as int,
                None => hl as int,
            };
            if pos > 0 {
                if pos - 1 < hl {
                    recalled(a, pos - 1, b, step)
                } else {
                    b == a && step == Step::Abort
                }
            } else {
                b == a && step == Step::Done(AppEvent::Continue)
            }
        },
        Key::Down => if n > 0 {
            suggestion_next(a, b) && step == Step::Done(AppEvent::Continue)
        } else {
            match a.command_history_pos {
                Some(p) => if p == usize::MAX {
                    b == a && step == Step::Abort
                } else if p + 1 < hl {
                    recalled(a, p + 1, b, step)
                } else {
                    &&& b.command_buffer@.len() == 0
                    &&& line_edited(
                        App { command_buffer: b.command_buffer, command_history_pos: None, ..a },
                        b,
                        step,
                    )
                },
                None => b == a && step == Step::Done(AppEvent::Continue),
            }
        },
        Key::Backspace => {
            &&& b.command_buffer@ == popped(a.command_buffer@)
            &&& line_edited(App { command_buffer: b.command_buffer, ..a }, b, step)
        },
        Key::Char(c) => {
            &&& b.command_buffer@ == a.command_buffer@.push(c)
            &&& line_edited(App { command_buffer: b.command_buffer, ..a }, b, step)
        },
        _ => b == a && step == Step::Done(AppEvent::Continue),
    }
}

/// Recompute the completions after an edit of the command line.
fn recompute(app: &mut App) -> (step: Step)
    ensures
        line_edited(*old(app), *final(app), step),
{
    app.compute_suggestions();
    Step::Done(AppEvent::Continue)
}

/// Handle a key on the command line.
pub fn handle_command_key(app: &mut App, key: Key) -> (step: Step)
    ensures
        command_key_done(*old(app), key, *final(app), step),
{
    let n = app.command_suggestions.len();
    let hl = app.command_history.len();
    match key {
        Key::Enter => {
            if n > 0 {
                app.accept_suggestion();
            }
            let cmd = app.command_buffer.clone();
            app.input_mode = InputMode::Normal;
            let ghost a2 = *app;
            assert(line_entered(*old(app), a2));
            if cmd.as_str().is_empty() {
                return Step::Done(AppEvent::Continue);
            }
            let r = app.execute_command(cmd.as_str());
            let ghost mid = *app;
            let ghost rg = r;
            let step = match r {
                CommandResult::Quit => Step::Done(AppEvent::Quit),
                CommandResult::Executed => Step::Done(AppEvent::Continue),
                CommandResult::Unknown(name) => {
                    let m = concat("Unknown command: :", name.as_str());
                    app.set_status(m.as_str());
                    Step::Done(AppEvent::Continue)
                },
                CommandResult::Error(msg) => {
                    let m = concat("Command error: ", msg.as_str());
                    app.set_status(m.as_str());
                    Step::Done(AppEvent::Continue)
                },
            };
            assert(command_done(a2, a2.command_buffer@, mid, rg));
            assert(command_finished(mid, rg, *app, step));
            step
        },
        Key::Tab => {
            if n > 0 {
                app.selected_suggestion = (app.selected_suggestion % n + 1) % n;
                proof {
                    vstd::arithmetic::div_mod::lemma_add_mod_noop(
                        old(app).selected_suggestion as int,
                        1,
                        n as int,
                    );
                    if n > 1 {
                        vstd::arithmetic::div_mod::lemma_small_mod(1, n as nat);
                    } else {
                        vstd::arithmetic::div_mod::lemma_mod_twice(old(app).selected_suggestion + 1, 1);
                        vstd::arithmetic::div_mod::lemma_small_mod(0, 1);
                    }
                }
            }
            Step::Done(AppEvent::Continue)
        },
        Key::BackTab => {
            if n > 0 {
                app.selected_suggestion = if app.selected_suggestion == 0 {
                    n - 1
                } else {
                    app.selected_suggestion - 1
                };
            }
            Step::Done(AppEvent::Continue)
        },
        Key::Esc | Key::Char('q') => {
            app.input_mode = InputMode::Normal;
            Step::Done(AppEvent::Continue)
        },
        Key::Up => {
            if n > 0 {
                app.selected_suggestion = if app.selected_suggestion == 0 {
                    n - 1
                } else {
                    app.selected_suggestion - 1
                };
                return Step::Done(AppEvent::Continue);
            }
            if hl == 0 {
                return Step::Done(AppEvent::Continue);
            }
            let pos = match app.command_history_pos {
                Some(p) => p,
                None => hl,
            };
            if pos > 0 {
                let new_pos = pos - 1;
                if new_pos >= hl {
                    return Step::Abort;
                }
                app.command_history_pos = Some(new_pos);
                app.command_buffer = app.command_history[new_pos].clone();
                recompute(app)
            } else {
                Step::Done(AppEvent::Continue)
            }
        },
        Key::Down => {
            if n > 0 {
                app.selected_suggestion = (app.selected_suggestion % n + 1) % n;
                proof {
                    vstd::arithmetic::div_mod::lemma_add_mod_noop(
                        old(app).selected_suggestion as int,
                        1,
                        n as int,
                    );
                    if n > 1 {
                        vstd::arithmetic::div_mod::lemma_small_mod(1, n as nat);
                    } else {
                        vstd::arithmetic::div_mod::lemma_mod_twice(old(app).selected_suggestion + 1, 1);
                        vstd::arithmetic::div_mod::lemma_small_mod(0, 1);
                    }
                }
                return Step::Done(AppEvent::Continue);
            }
            match app.command_history_pos {
                Some(p) => {
                    if p == usize::MAX {
                        return Step::Abort;
                    }
                    let next = p + 1;
                    if next < hl {
                        app.command_history_pos = Some(next);
                        app.command_buffer = app.command_history[next].clone();
                        recompute(app)
                    } else {
                        app.command_history_pos = None;
                        app.command_buffer = String::new();
                        recompute(app)
                    }
                },
                None => Step::Done(AppEvent::Continue),
            }
        },
        Key::Backspace => {
            pop_char(&mut app.command_buffer);
            recompute(app)
        },
        Key::Char(c) => {
            push_char(&mut app.command_buffer, c);
            recompute(app)
        },
        _ => Step::Done(AppEvent::Continue),
    }
}

/// The command line opened empty, with its completions computed.
pub open spec fn command_mode_entered(a: App, b: App, step: Step) -> bool {
    &&& b.command_buffer@.len() == 0
    &&& line_edited(
        App {
            command_buffer: b.command_buffer,
            command_history_pos: None,
            input_mode: InputMode::Command,
            ..a
        },
        b,
        step,
    )
}

/// Open the command line.
pub fn enter_command_mode(app: &mut App) -> (step: Step)
    ensures
        command_mode_entered(*old(app), *final(app), step),
{
    app.command_buffer = String::new();
    app.command_history_pos = None;
    app.input_mode = InputMode::Command;
    recompute(app)
}

/// A key on the main screen. `g g` goes to the top; every other key first
/// forgets a pending `g`.
pub open spec fn main_key_done(a: App, sa: FolderStore, key: Key, b: App, sb: FolderStore, step: Step) -> bool {
    if a.pending_key == Some('g') && key == Key::Char('g') {
        &&& b == (App { selected_session: 0, pending_key: None, ..a })
        &&& store_same(sa, sb)
        &&& step == Step::Done(AppEvent::Continue)
    } else {
        let a1 = App { pending_key: None, ..a };
        let n = a1.filtered_indices@.len();
        let last = if n == 0 {
            0
        } else {
            n - 1
        };
        let sel = a1.selected_session;
        let cont = step == Step::Done(AppEvent::Continue);
        match key {
            Key::Char('d') => archive_done(a1, sa, b, sb, step),
            Key::Char(':') => store_same(sa, sb) && command_mode_entered(a1, b, step),
            Key::Char('q') | Key::Esc => store_same(sa, sb) && b == a1 && step == Step::Done(
                AppEvent::Quit,
            ),
            Key::Char('n') => store_same(sa, sb) && b == a1 && step == Step::Done(AppEvent::LaunchNew),
            Key::Enter => store_same(sa, sb) && b == a1 && match current_session_of(a1) {
                Some(s) => step matches Step::Done(AppEvent::LaunchSession { id, cwd }) && id@ == s.id@
                    && crate::model::opt_view(cwd) == if a1.global_mode {
                    crate::model::opt_view(s.project_directory)
                } else {
                    None
                },
                None => cont,
            },
            _ => store_same(sa, sb) && cont && match key {
                Key::Char('?') => b == (App { screen: Screen::Help, ..a1 }),
                Key::Char('/') => b == (App {
                    input_mode: InputMode::Search,
                    search_query: b.search_query,
                    ..a1
                }) && b.search_query@.len() == 0,
                Key::Char('p') => b == if current_session_of(a1) is Some {
                    App { screen: Screen::Preview, ..a1 }
                } else {
                    a1
                },
                Key::Char('r') => rename_started(a1, b),
                Key::Char('m') => if a1.folders_enabled {
                    move_started(a1, b)
                } else {
                    status_only(a1, b, "Enable folders with F to move sessions"@)
                },
                Key::Char('D') => delete_started(a1, b),
                Key::Char('s') => same_but_listing(App { sort_by: crate::app::next_sort(a1.sort_by), ..a1 }, b)
                    && refreshed(b, sel),
                Key::Char('a') => if a1.folders_enabled {
                    jumped(a1, b, "all"@)
                } else {
                    status_only(a1, b, "Enable folders with F to use folder shortcuts"@)
                },
                Key::Char('P') => crate::app::project_filter_toggled(a1, b),
                Key::Char('F') => if a1.global_mode {
                    status_only(a1, b, "Folders are disabled in global mode"@)
                } else {
                    crate::commands::folders_set(a1, b, !a1.folders_enabled)
                },
                Key::Char('N') => if a1.folders_enabled {
                    new_folder_started(a1, b)
                } else {
                    status_only(a1, b, "Enable folders with F to create folders"@)
                },
                Key::Char('g') => b == (App { pending_key: Some('g'), ..a1 }),
                Key::Char('G') | Key::End => b == (App { selected_session: last as usize, ..a1 }),
                Key::Down | Key::Char('j') => b == (App {
                    selected_session: if n > 0 {
                        if sel + 1 <= last {
                            (sel + 1) as usize
                        } else {
                            last as usize
                        }
                    } else {
                        sel
                    },
                    ..a1
                }),
                Key::Up | Key::Char('k') => b == (App {
                    selected_session: if sel > 0 {
                        (sel - 1) as usize
                    } else {
                        0
                    },
                    ..a1
                }),
                Key::Left | Key::Char('h') => if a1.folders_enabled {
                    folder_up(a1, b)
                } else {
                    b == a1
                },
                Key::Right | Key::Char('l') => if a1.folders_enabled {
                    folder_down(a1, b)
                } else {
                    b == a1
                },
                Key::PageDown => b == (App {
                    selected_session: if n > 0 {
                        if sel + 10 <= last {
                            (sel + 10) as usize
                        } else {
                            last as usize
                        }
                    } else {
                        sel
                    },
                    ..a1
                }),
                Key::PageUp => b == (App {
                    selected_session: if sel > 10 {
                        (sel - 10) as usize
                    } else {
                        0
                    },
                    ..a1
                }),
                Key::Home => b == (App { selected_session: 0, ..a1 }),
                _ => b == a1,
            },
        }
    }
}

/// Handle a key on the main screen.
pub fn handle_main_key(app: &mut App, store: &mut FolderStore, key: Key) -> (step: Step)
    ensures
        main_key_done(*old(app), *old(store), key, *final(app), *final(store), step),
{
    let pending_g = match app.pending_key {
        Some(k) => k == 'g',
        None => false,
    };
    if pending_g && key == Key::Char('g') {
        app.selected_session = 0;
        app.pending_key = None;
        return Step::Done(AppEvent::Continue);
    }
    app.pending_key = None;
    let n = app.filtered_indices.len();
    let last = if n == 0 {
        0
    } else {
        n - 1
    };
    match key {
        Key::Char('q') | Key::Esc => {
            return Step::Done(AppEvent::Quit);
        },
        Key::Char('?') => {
            app.screen = Screen::Help;
        },
        Key::Char('/') => {
            app.input_mode = InputMode::Search;
            app.search_query = String::new();
        },
        Key::Char('n') => {
            return Step::Done(AppEvent::LaunchNew);
        },
        Key::Char('p') => {
            if app.current_session().is_some() {
                app.screen = Screen::Preview;
            }
        },
        Key::Char('r') => app.start_rename(),
        Key::Char('m') => {
            if app.folders_enabled {
                app.start_move();
            } else {
                app.set_status("Enable folders with F to move sessions");
            }
        },
        Key::Char('d') => {
            return archive_current(app, store);
        },
        Key::Char('D') => app.start_delete(),
        Key::Char('s') => app.cycle_sort(),
        Key::Char('a') => {
            if app.folders_enabled {
                app.jump_to_folder("all");
            } else {
                app.set_status("Enable folders with F to use folder shortcuts");
            }
        },
        Key::Char('P') => app.toggle_project_filter(),
        Key::Char('F') => {
            if app.global_mode {
                app.set_status("Folders are disabled in global mode");
            } else {
                app.toggle_folders();
            }
        },
        Key::Char('N') => {
            if app.folders_enabled {
                app.start_new_folder();
            } else {
                app.set_status("Enable folders with F to create folders");
            }
        },
        Key::Char(':') => {
            return enter_command_mode(app);
        },
        Key::Char('g') => {
            app.pending_key = Some('g');
        },
        Key::Char('G') | Key::End => {
            app.selected_session = last;
        },
        Key::Down | Key::Char('j') => app.move_selection_down(),
        Key::Up | Key::Char('k') => app.move_selection_up(),
        Key::Left | Key::Char('h') => {
            if app.folders_enabled {
                app.move_folder_up();
            }
        },
        Key::Right | Key::Char('l') => {
            if app.folders_enabled {
                app.move_folder_down();
            }
        },
        Key::PageDown => {
            let mut i: usize = 0;
            let ghost a1 = *app;
            while i < 10
                invariant
                    i <= 10,
                    n == app.filtered_indices@.len(),
                    *app == (App { selected_session: app.selected_session, ..a1 }),
                    app.selected_session == if i == 0 {
                        a1.selected_session
                    } else if n > 0 {
                        if a1.selected_session + i <= n - 1 {
                            (a1.selected_session + i) as usize
                        } else {
                            (n - 1) as usize
                        }
                    } else {
                        a1.selected_session
                    },
                decreases 10 - i,
            {
                app.move_selection_down();
                i = i + 1;
            }
        },
        Key::PageUp => {
            let mut i: usize = 0;
            let ghost a1 = *app;
            while i < 10
                invariant
                    i <= 10,
                    *app == (App { selected_session: app.selected_session, ..a1 }),
                    app.selected_session == if a1.selected_session > i {
                        (a1.selected_session - i) as usize
                    } else {
                        0
                    },
                decreases 10 - i,
            {
                app.move_selection_up();
                i = i + 1;
            }
        },
        Key::Home => {
            app.selected_session = 0;
        },
        Key::Enter => {
            match app.current_session() {
                Some(s) => {
                    let cwd: Option<String> = if app.global_mode {
                        match &s.project_directory {
                            Some(d) => Some(d.clone()),
                            None => None,
                        }
                    } else {
                        None
                    };
                    return Step::Done(AppEvent::LaunchSession { id: s.id.clone(), cwd });
                },
                None => {},
            }
        },
        _ => {},
    }
    Step::Done(AppEvent::Continue)
}

/// A key, wherever it goes: to the box or prompt being typed into, else to
/// the screen shown.
pub open spec fn key_done(a: App, sa: FolderStore, key: Key, b: App, sb: FolderStore, step: Step) -> bool {
    match a.input_mode {
        InputMode::Search => store_same(sa, sb) && search_key_done(a, key, b) && step == Step::Done(
            AppEvent::Continue,
        ),
        InputMode::Rename => store_same(sa, sb) && rename_key_done(a, key, b, step),
        InputMode::NewFolder => new_folder_key_done(a, sa, key, b, sb, step),
        InputMode::Confirm => store_same(sa, sb) && confirm_key_done(a, key, b, step),
        InputMode::Command => store_same(sa, sb) && command_key_done(a, key, b, step),
        InputMode::Normal => match a.screen {
            Screen::Main => main_key_done(a, sa, key, b, sb, step),
            Screen::Preview => store_same(sa, sb) && exists|ok: bool|
                #[trigger] preview_key_done(a, key, b, ok) && step == if ok {
                    Step::Done(AppEvent::Continue)
                } else {
                    Step::Abort
                },
            Screen::Help => store_same(sa, sb) && step == Step::Done(AppEvent::Continue) && b == if key
                == Key::Esc || key == Key::Char('q') {
                App { screen: Screen::Main, ..a }
            } else {
                a
            },
            Screen::MoveToFolder => move_key_done(a, sa, key, b, sb, step),
            _ => store_same(sa, sb) && b == a && step == Step::Done(AppEvent::Continue),
        },
    }
}

/// Handle a key.
pub fn handle_key(app: &mut App, store: &mut FolderStore, key: Key) -> (step: Step)
    ensures
        key_done(*old(app), *old(store), key, *final(app), *final(store), step),
{
    match app.input_mode {
        InputMode::Search => {
            handle_search_key(app, key);
            return Step::Done(AppEvent::Continue);
        },
        InputMode::Rename => {
            return handle_rename_key(app, key);
        },
        InputMode::NewFolder => {
            return handle_new_folder_key(app, store, key);
        },
        InputMode::Confirm => {
            return handle_confirm_key(app, key);
        },
        InputMode::Command => {
            return handle_command_key(app, key);
        },
        InputMode::Normal => {},
    }
    match app.screen {
        Screen::Main => handle_main_key(app, store, key),
        Screen::Preview => {
            let ok = handle_preview_key(app, key);
            if ok {
                Step::Done(AppEvent::Continue)
            } else {
                Step::Abort
            }
        },
        Screen::Help => {
            if key == Key::Esc || key == Key::Char('q') {
                app.screen = Screen::Main;
            }
            Step::Done(AppEvent::Continue)
        },
        Screen::MoveToFolder => handle_move_folder_key(app, store, key),
        _ => Step::Done(AppEvent::Continue),
    }
}

/// The database is written only on explicit confirmation: a key asks to
/// rename a session only as Enter in the rename prompt, and to delete one
/// only as `y` on the delete confirmation.
pub proof fn law_database_writes_need_confirmation(
    a: App,
    sa: FolderStore,
    key: Key,
    b: App,
    sb: FolderStore,
    step: Step,
)
    requires
        key_done(a, sa, key, b, sb, step),
    ensures
        step is RenameSession ==> a.input_mode == InputMode::Rename && key == Key::Enter,
        step is DeleteSession ==> a.input_mode == InputMode::Confirm && a.screen == Screen::ConfirmDelete
            && (key == Key::Char('y') || key == Key::Char('Y')),
{
    if a.input_mode == InputMode::Command && key == Key::Enter {
        let a2 = choose|a2: App| #[trigger] line_entered(a, a2) && if a2.command_buffer@.len() == 0 {
            b == a2 && step == Step::Done(AppEvent::Continue)
        } else {
            exists|mid: App, r: CommandResult|
                #[trigger] command_done(a2, a2.command_buffer@, mid, r) && command_finished(mid, r, b, step)
        };
        if a2.command_buffer@.len() > 0 {
            let (mid, r) = choose|mid: App, r: CommandResult|
                #[trigger] command_done(a2, a2.command_buffer@, mid, r) && command_finished(mid, r, b, step);
        }
    }
}

proof fn lemma_session_position_prefix(ss: Seq<Session>, id: Seq<char>, n: int)
    requires
        0 <= n <= ss.len(),
        session_position(ss.take(n), id) is Some,
    ensures
        session_position(ss, id) == session_position(ss.take(n), id),
    decreases ss.len() - n,
{
    if n < ss.len() {
        assert(ss.take(n + 1).drop_last() =~= ss.take(n));
        lemma_session_position_prefix(ss, id, n + 1);
    } else {
        assert(ss.take(n) =~= ss);
    }
}

proof fn lemma_folder_position_prefix(fs: Seq<Folder>, id: Seq<char>, n: int)
    requires
        0 <= n <= fs.len(),
        folder_position(fs.take(n), id) is Some,
    ensures
        folder_position(fs, id) == folder_position(fs.take(n), id),
    decreases fs.len() - n,
{
    if n < fs.len() {
        assert(fs.take(n + 1).drop_last() =~= fs.take(n));
        lemma_folder_position_prefix(fs, id, n + 1);
    } else {
        assert(fs.take(n) =~= fs);
    }
}

} // verus!
