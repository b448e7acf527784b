//! The records the selector works on: sessions, projects and folders.
use vstd::prelude::*;

verus! {

/// The characters of an optional string.
pub open spec fn opt_view(o: Option<String>) -> Option<Seq<char>> {
    match o {
        Some(s) => Some(s@),
        None => None,
    }
}

/// Metadata about an opencode session.
///
/// Times are milliseconds since the Unix epoch, as opencode stores them.
#[derive(Debug, Clone, PartialEq, Eq)]
pub struct Session {
    pub id: String,
    pub title: String,
    pub slug: String,
    pub project_id: String,
    pub project_name: String,
    pub project_directory: Option<String>,
    pub agent: Option<String>,
    pub model_name: Option<String>,
    pub created_at: i64,
    pub updated_at: i64,
    pub summary_files: i64,
    pub first_message_preview: Option<String>,
    pub messages: Vec<(String, String)>,
}

impl Session {
    /// The title shown for a session: its title, or its slug when the title
    /// is empty.
    pub open spec fn shown_title(&self) -> Seq<char> {
        if self.title@.len() == 0 {
            self.slug@
        } else {
            self.title@
        }
    }

    /// Return a short display title, falling back to the slug.
    pub fn display_title(&self) -> (r: &str)
        ensures
            r@ == self.shown_title(),
    {
        if self.title.as_str().is_empty() {
            self.slug.as_str()
        } else {
            self.title.as_str()
        }
    }
}

/// Metadata about an opencode project.
#[derive(Debug, Clone, PartialEq, Eq)]
pub struct Project {
    pub id: String,
    pub name: Option<String>,
}

/// The characters of a folder's fields.
pub struct FolderView {
    pub id: Seq<char>,
    pub name: Seq<char>,
    pub parent_id: Option<Seq<char>>,
}

/// A folder used to organize sessions.
#[derive(Debug, Clone, PartialEq, Eq)]
pub struct Folder {
    pub id: String,
    pub name: String,
    pub parent_id: Option<String>,
}

impl View for Folder {
    type V = FolderView;

    open spec fn view(&self) -> FolderView {
        FolderView { id: self.id@, name: self.name@, parent_id: opt_view(self.parent_id) }
    }
}

impl Folder {
    /// Create a new top-level folder with the given ID and name.
    pub fn new(id: &str, name: &str) -> (r: Folder)
        ensures
            r@ == (FolderView { id: id@, name: name@, parent_id: None }),
    {
        Folder { id: id.to_owned(), name: name.to_owned(), parent_id: None }
    }

    /// A copy of this folder.
    pub fn duplicate(&self) -> (r: Folder)
        ensures
            r@ == self@,
    {
        Folder {
            id: self.id.clone(),
            name: self.name.clone(),
            parent_id: match &self.parent_id {
                Some(p) => Some(p.clone()),
                None => None,
            },
        }
    }
}

/// The characters of a mapping's fields.
pub struct MappingView {
    pub session_id: Seq<char>,
    pub folder_id: Seq<char>,
}

/// Maps a session to a folder.
#[derive(Debug, Clone, PartialEq, Eq)]
pub struct FolderMapping {
    pub session_id: String,
    pub folder_id: String,
}

impl View for FolderMapping {
    type V = MappingView;

    open spec fn view(&self) -> MappingView {
        MappingView { session_id: self.session_id@, folder_id: self.folder_id@ }
    }
}

impl FolderMapping {
    /// The mapping of `session_id` into `folder_id`.
    pub fn new(session_id: &str, folder_id: &str) -> (r: FolderMapping)
        ensures
            r@ == (MappingView { session_id: session_id@, folder_id: folder_id@ }),
    {
        FolderMapping { session_id: session_id.to_owned(), folder_id: folder_id.to_owned() }
    }
}

} // verus!
