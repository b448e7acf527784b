use opencode_selector::folders::{FolderError, FolderStore, is_system_folder};
use opencode_selector::model::{Folder, FolderMapping};

#[test]
fn store_creates_defaults() {
    let store = FolderStore::in_memory();
    let folders: Vec<Folder> = store.folders().to_vec();
    assert_eq!(folders.len(), 3);
    assert_eq!(folders[0].id, "all");
    assert_eq!(folders[1].id, "inbox");
    assert_eq!(folders[2].id, "archive");
}

#[test]
fn move_and_lookup_session() {
    let mut store = FolderStore::in_memory();
    store.add_folder(Folder::new("work", "Work")).unwrap();
    store.move_session("s1", "work").unwrap();
    assert_eq!(store.folder_for_session("s1"), Some("work"));
}

#[test]
fn defaults_are_added_to_loaded_folders() {
    let store = FolderStore::from_parts(
        "/tmp/folders.toml".to_string(),
        vec![Folder::new("work", "Work"), Folder::new("all", "Everything")],
        vec![FolderMapping::new("s1", "work")],
    );
    let ids: Vec<String> = store.folders().iter().map(|f| f.id.clone()).collect();
    assert_eq!(ids, vec!["work", "all", "inbox", "archive"]);
    assert_eq!(store.folder("all").unwrap().name, "Everything");
    assert_eq!(store.path(), "/tmp/folders.toml");
    assert_eq!(store.folder_for_session("s1"), Some("work"));
}

#[test]
fn adding_an_existing_folder_is_refused() {
    let mut store = FolderStore::in_memory();
    let err = store.add_folder(Folder::new("inbox", "Again")).unwrap_err();
    assert_eq!(err, FolderError::AlreadyExists("inbox".to_string()));
    assert_eq!(err.message(), "folder with id inbox already exists");
    assert_eq!(store.folders().len(), 3);
}

#[test]
fn moving_to_all_or_unknown_is_refused() {
    let mut store = FolderStore::in_memory();
    assert_eq!(store.move_session("s1", "all"), Err(FolderError::CannotMoveToAll));
    assert_eq!(
        FolderError::CannotMoveToAll.message(),
        "cannot move sessions to the All folder"
    );
    let err = store.move_session("s1", "nope").unwrap_err();
    assert_eq!(err.message(), "folder nope not found");
    assert_eq!(store.folder_for_session("s1"), None);
}

#[test]
fn moving_again_replaces_the_mapping() {
    let mut store = FolderStore::in_memory();
    store.move_session("s1", "inbox").unwrap();
    store.move_session("s2", "inbox").unwrap();
    store.move_session("s1", "archive").unwrap();
    assert_eq!(store.folder_for_session("s1"), Some("archive"));
    assert_eq!(store.sessions_in_folder("inbox"), vec!["s2"]);
    assert_eq!(store.mappings().len(), 2);
    store.unassign_session("s1");
    assert_eq!(store.folder_for_session("s1"), None);
    assert_eq!(store.folder_for_session("s2"), Some("inbox"));
}

#[test]
fn system_folders_keep_their_names_and_stay() {
    let mut store = FolderStore::in_memory();
    assert!(is_system_folder("all") && is_system_folder("inbox") && is_system_folder("archive"));
    assert!(!is_system_folder("work"));
    let err = store.rename_folder("archive", "Old").unwrap_err();
    assert_eq!(err.message(), "cannot rename system folder archive");
    let err = store.delete_folder("all").unwrap_err();
    assert_eq!(err.message(), "cannot delete system folder all");
    assert_eq!(store.rename_folder("nope", "x").unwrap_err().message(), "folder nope not found");
}

#[test]
fn renaming_and_deleting_a_folder() {
    let mut store = FolderStore::in_memory();
    store.add_folder(Folder::new("work", "Work")).unwrap();
    store.rename_folder("work", "Job").unwrap();
    assert_eq!(store.folder("work").unwrap().name, "Job");
    store.move_session("s1", "work").unwrap();
    store.move_session("s2", "inbox").unwrap();
    assert!(!store.is_empty("work"));
    store.delete_folder("work").unwrap();
    assert!(store.folder("work").is_none());
    assert_eq!(store.folder_for_session("s1"), None);
    assert_eq!(store.folder_for_session("s2"), Some("inbox"));
    assert_eq!(store.delete_folder("work").unwrap_err(), FolderError::NotFound("work".to_string()));
}

#[test]
fn session_folder_map_follows_mappings() {
    let mut store = FolderStore::in_memory();
    store.move_session("s1", "inbox").unwrap();
    store.move_session("s2", "archive").unwrap();
    let map = store.session_folder_map();
    assert_eq!(map.get("s1"), Some("inbox"));
    assert_eq!(map.get("s2"), Some("archive"));
    assert_eq!(map.get("s3"), None);
    assert_eq!(map.count_value("inbox"), 1);
    assert!(store.is_empty("all"));
}

#[test]
fn unassigning_after_a_move_restores_the_map() {
    let mut store = FolderStore::in_memory();
    store.add_folder(Folder::new("work", "Work")).unwrap();
    store.move_session("s2", "inbox").unwrap();
    let before = store.session_folder_map();
    assert_eq!(store.folder_for_session("s1"), None);
    store.move_session("s1", "work").unwrap();
    store.unassign_session("s1");
    assert_eq!(store.folder_for_session("s1"), None);
    assert_eq!(store.mappings().to_vec(), vec![FolderMapping::new("s2", "inbox")]);
    assert_eq!(store.session_folder_map().get("s2"), before.get("s2"));
    assert_eq!(store.session_folder_map().get("s1"), before.get("s1"));
}

#[test]
fn a_sequence_of_operations_keeps_the_store_sound() {
    let mut store = FolderStore::in_memory();
    assert!(store.add_folder(Folder::new("work", "Work")).is_ok());
    assert!(store.add_folder(Folder::new("work", "Again")).is_err());
    assert!(store.rename_folder("all", "Everything").is_err());
    assert!(store.rename_folder("work", "Job").is_ok());
    assert!(store.move_session("s1", "all").is_err());
    assert!(store.move_session("s1", "work").is_ok());
    assert!(store.move_session("s1", "archive").is_ok());
    assert!(store.move_session("s2", "work").is_ok());
    assert!(store.delete_folder("inbox").is_err());
    assert!(store.delete_folder("work").is_ok());
    let folders: Vec<(String, String)> =
        store.folders().iter().map(|f| (f.id.clone(), f.name.clone())).collect();
    assert_eq!(
        folders,
        vec![
            ("all".to_string(), "All".to_string()),
            ("inbox".to_string(), "Inbox".to_string()),
            ("archive".to_string(), "Archive".to_string()),
        ]
    );
    assert_eq!(store.mappings().to_vec(), vec![FolderMapping::new("s1", "archive")]);
}
