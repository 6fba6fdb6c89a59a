use chatdesk::chats::{
    append_assistant_message, append_user_message, create_new_chat, delete_chat,
    delete_chats_for_workspace, derive_chat_title, empty_chat_data, find_chat, get_all_chats,
    get_chat_messages, get_chats_for_workspace, rename_chat, search_chats, set_chat_folder,
    update_chat_timestamp,
};
use chatdesk::entities::{
    ChatMeta, ChatsIndex, FolderMeta, FoldersIndex, WorkspaceMeta, WorkspacesIndex,
};
use chatdesk::errors::{classify_http_status, CoreError, StatusClass};
use chatdesk::folders::{
    add_chat_to_folder, create_folder, delete_folder, delete_folders_for_workspace, find_folder,
    get_folders_for_workspace, remove_chat_from_folder_cmd, rename_folder,
};
use chatdesk::store::{
    get_chat_file_path, get_folders_index_path, get_index_path, get_workspaces_index_path,
};
use chatdesk::workspaces::{
    create_workspace, default_workspaces_index, delete_workspace, rename_workspace,
    resolve_workspace_id, set_active_workspace,
};

fn chat(id: &str, title: &str, ws: &str, folder: Option<&str>) -> ChatMeta {
    ChatMeta {
        id: id.to_string(),
        chat_title: title.to_string(),
        file_location: format!(".data/chats/{}.json", id),
        model_used: "m1".to_string(),
        workspace_id: ws.to_string(),
        folder_id: folder.map(|f| f.to_string()),
        created_at: "t0".to_string(),
        last_updated_at: "t0".to_string(),
    }
}

fn folder(id: &str, name: &str, ws: &str, chat_ids: &[&str]) -> FolderMeta {
    FolderMeta {
        id: id.to_string(),
        name: name.to_string(),
        workspace_id: ws.to_string(),
        chat_ids: chat_ids.iter().map(|c| c.to_string()).collect(),
        tags: Vec::new(),
        created_at: "t0".to_string(),
        last_updated_at: "t0".to_string(),
    }
}

fn workspace(id: &str, name: &str) -> WorkspaceMeta {
    WorkspaceMeta {
        id: id.to_string(),
        name: name.to_string(),
        created_at: "t0".to_string(),
        last_updated_at: "t0".to_string(),
    }
}

#[test]
fn title_longer_than_limit_truncated() {
    let msg = "abcdefghij".repeat(6); // 60 characters
    let title = derive_chat_title(&msg);
    assert_eq!(title.chars().count(), 53);
    let expected = format!("{}...", &msg[..50]);
    assert_eq!(title, expected);
}

#[test]
fn title_at_limit_verbatim() {
    let msg = "abcdefghij".repeat(5); // exactly 50 characters
    assert_eq!(derive_chat_title(&msg), msg);
    let short = "hello";
    assert_eq!(derive_chat_title(short), "hello");
}

#[test]
fn create_chat_appends_and_fills_meta() {
    let mut index = ChatsIndex { chats: vec![] };
    let meta = create_new_chat(&mut index, "llama", "first message", "ws1", None);
    assert_eq!(index.chats.len(), 1);
    assert_eq!(index.chats[0].id, meta.id);
    assert_eq!(meta.id.len(), 36);
    assert_eq!(meta.chat_title, "first message");
    assert_eq!(meta.model_used, "llama");
    assert_eq!(meta.workspace_id, "ws1");
    assert_eq!(meta.folder_id, None);
    assert_eq!(meta.created_at, meta.last_updated_at);
    assert_eq!(meta.file_location, format!(".data/chats/{}.json", meta.id));
}

#[test]
fn rename_chat_trims_and_updates() {
    let mut index = ChatsIndex { chats: vec![chat("c1", "old", "ws1", None)] };
    assert_eq!(rename_chat(&mut index, "c1", "  new title  ", "t1"), Ok(()));
    assert_eq!(index.chats[0].chat_title, "new title");
    assert_eq!(index.chats[0].last_updated_at, "t1");
}

#[test]
fn rename_chat_rejects_blank() {
    let mut index = ChatsIndex { chats: vec![chat("c1", "old", "ws1", None)] };
    assert_eq!(rename_chat(&mut index, "c1", "   ", "t1"), Err(CoreError::Validation));
    assert_eq!(index.chats[0].chat_title, "old");
}

#[test]
fn rename_chat_unknown_id() {
    let mut index = ChatsIndex { chats: vec![chat("c1", "old", "ws1", None)] };
    assert_eq!(rename_chat(&mut index, "nope", "t", "t1"), Err(CoreError::NotFound));
}

#[test]
fn find_chat_first_match() {
    let index = ChatsIndex {
        chats: vec![chat("a", "x", "w", None), chat("b", "y", "w", None)],
    };
    assert_eq!(find_chat(&index, "b"), Some(1));
    assert_eq!(find_chat(&index, "z"), None);
}

#[test]
fn search_empty_query_returns_workspace_chats_in_order() {
    let index = ChatsIndex {
        chats: vec![
            chat("a", "Alpha", "w1", None),
            chat("b", "Beta", "w2", None),
            chat("c", "Gamma", "w1", None),
        ],
    };
    let r = search_chats(&index, "w1", "");
    assert_eq!(r.len(), 2);
    assert_eq!(r[0].id, "a");
    assert_eq!(r[1].id, "c");
    let blank = search_chats(&index, "w1", "   ");
    assert_eq!(blank.len(), 2);
}

#[test]
fn search_is_case_insensitive_substring() {
    let index = ChatsIndex {
        chats: vec![
            chat("a", "Shopping List", "w1", None),
            chat("b", "Holiday plans", "w1", None),
            chat("c", "shopping trip", "w2", None),
        ],
    };
    let r = search_chats(&index, "w1", "SHOP");
    assert_eq!(r.len(), 1);
    assert_eq!(r[0].id, "a");
    let r2 = search_chats(&index, "w1", "  pLaN  ");
    assert_eq!(r2.len(), 1);
    assert_eq!(r2[0].id, "b");
    let r3 = search_chats(&index, "w1", "zzz");
    assert_eq!(r3.len(), 0);
}

#[test]
fn attach_then_detach_restores_chat() {
    let mut folders = FoldersIndex { folders: vec![folder("f1", "Work", "w1", &[])] };
    let mut chats = ChatsIndex { chats: vec![chat("c1", "x", "w1", None)] };
    assert_eq!(add_chat_to_folder(&mut folders, &mut chats, "f1", "c1", "t1"), Ok(()));
    assert_eq!(folders.folders[0].chat_ids, vec!["c1".to_string()]);
    assert_eq!(chats.chats[0].folder_id, Some("f1".to_string()));
    assert_eq!(
        remove_chat_from_folder_cmd(&mut folders, &mut chats, "f1", "c1", "t2"),
        Ok(())
    );
    assert!(folders.folders[0].chat_ids.is_empty());
    assert_eq!(chats.chats[0].folder_id, None);
}

#[test]
fn add_chat_to_folder_is_idempotent() {
    let mut folders = FoldersIndex { folders: vec![folder("f1", "Work", "w1", &["c1"])] };
    let mut chats = ChatsIndex { chats: vec![chat("c1", "x", "w1", Some("f1"))] };
    assert_eq!(add_chat_to_folder(&mut folders, &mut chats, "f1", "c1", "t1"), Ok(()));
    assert_eq!(folders.folders[0].chat_ids, vec!["c1".to_string()]);
}

#[test]
fn add_chat_to_missing_folder_fails() {
    let mut folders = FoldersIndex { folders: vec![] };
    let mut chats = ChatsIndex { chats: vec![chat("c1", "x", "w1", None)] };
    assert_eq!(
        add_chat_to_folder(&mut folders, &mut chats, "f9", "c1", "t1"),
        Err(CoreError::NotFound)
    );
    assert_eq!(chats.chats[0].folder_id, None);
}

#[test]
fn delete_chat_in_folder_updates_folder_list() {
    let mut folders = FoldersIndex {
        folders: vec![folder("f1", "Work", "w1", &["c1", "c2"])],
    };
    let mut chats = ChatsIndex {
        chats: vec![chat("c1", "x", "w1", Some("f1")), chat("c2", "y", "w1", Some("f1"))],
    };
    assert_eq!(delete_chat(&mut chats, &mut folders, "c1"), Ok(()));
    assert_eq!(chats.chats.len(), 1);
    assert_eq!(chats.chats[0].id, "c2");
    assert_eq!(folders.folders[0].chat_ids, vec!["c2".to_string()]);
}

#[test]
fn delete_chat_without_folder_leaves_folders_alone() {
    let mut folders = FoldersIndex { folders: vec![folder("f1", "Work", "w1", &["c2"])] };
    let mut chats = ChatsIndex {
        chats: vec![chat("c1", "x", "w1", None), chat("c2", "y", "w1", Some("f1"))],
    };
    assert_eq!(delete_chat(&mut chats, &mut folders, "c1"), Ok(()));
    assert_eq!(folders.folders[0].chat_ids, vec!["c2".to_string()]);
}

#[test]
fn delete_missing_chat_fails() {
    let mut folders = FoldersIndex { folders: vec![] };
    let mut chats = ChatsIndex { chats: vec![] };
    assert_eq!(delete_chat(&mut chats, &mut folders, "c1"), Err(CoreError::NotFound));
}

#[test]
fn delete_folder_releases_its_chats() {
    let mut folders = FoldersIndex {
        folders: vec![folder("f1", "Work", "w1", &["c1", "c3"]), folder("f2", "Other", "w1", &[])],
    };
    let mut chats = ChatsIndex {
        chats: vec![
            chat("c1", "x", "w1", Some("f1")),
            chat("c2", "y", "w1", None),
            chat("c3", "z", "w1", Some("f1")),
        ],
    };
    assert_eq!(delete_folder(&mut folders, &mut chats, "f1", "t9"), Ok(()));
    assert_eq!(folders.folders.len(), 1);
    assert_eq!(folders.folders[0].id, "f2");
    assert_eq!(chats.chats[0].folder_id, None);
    assert_eq!(chats.chats[0].last_updated_at, "t9");
    assert_eq!(chats.chats[1].folder_id, None);
    assert_eq!(chats.chats[1].last_updated_at, "t0");
    assert_eq!(chats.chats[2].folder_id, None);
    assert_eq!(chats.chats[2].last_updated_at, "t9");
}

#[test]
fn create_folder_validates_name() {
    let mut folders = FoldersIndex { folders: vec![] };
    assert!(matches!(
        create_folder(&mut folders, "w1", "  "),
        Err(CoreError::Validation)
    ));
    let f = create_folder(&mut folders, "w1", "  Projects  ").unwrap();
    assert_eq!(f.name, "Projects");
    assert_eq!(f.workspace_id, "w1");
    assert_eq!(f.id.len(), 36);
    assert!(f.chat_ids.is_empty());
    assert!(f.tags.is_empty());
    assert_eq!(folders.folders.len(), 1);
}

#[test]
fn rename_folder_paths() {
    let mut folders = FoldersIndex { folders: vec![folder("f1", "Old", "w1", &[])] };
    assert_eq!(rename_folder(&mut folders, "f1", " New ", "t3"), Ok(()));
    assert_eq!(folders.folders[0].name, "New");
    assert_eq!(folders.folders[0].last_updated_at, "t3");
    assert_eq!(rename_folder(&mut folders, "f1", " ", "t3"), Err(CoreError::Validation));
    assert_eq!(rename_folder(&mut folders, "f9", "x", "t3"), Err(CoreError::NotFound));
}

#[test]
fn folders_for_workspace_filters_in_order() {
    let folders = FoldersIndex {
        folders: vec![
            folder("f1", "A", "w1", &[]),
            folder("f2", "B", "w2", &[]),
            folder("f3", "C", "w1", &[]),
        ],
    };
    let r = get_folders_for_workspace(&folders, "w1");
    assert_eq!(r.len(), 2);
    assert_eq!(r[0].id, "f1");
    assert_eq!(r[1].id, "f3");
    assert_eq!(find_folder(&folders, "f2"), Some(1));
}

#[test]
fn delete_sole_workspace_fails_and_changes_nothing() {
    let mut ws = WorkspacesIndex {
        workspaces: vec![workspace("w1", "Main")],
        active_workspace_id: "w1".to_string(),
    };
    let mut folders = FoldersIndex { folders: vec![folder("f1", "A", "w1", &[])] };
    let mut chats = ChatsIndex { chats: vec![chat("c1", "x", "w1", None)] };
    let r = delete_workspace(&mut ws, &mut folders, &mut chats, "w1");
    assert_eq!(r.unwrap_err(), CoreError::Validation);
    assert_eq!(ws.workspaces.len(), 1);
    assert_eq!(folders.folders.len(), 1);
    assert_eq!(chats.chats.len(), 1);
}

#[test]
fn delete_workspace_cascades() {
    let mut ws = WorkspacesIndex {
        workspaces: vec![workspace("w1", "Main"), workspace("w2", "Side")],
        active_workspace_id: "w2".to_string(),
    };
    let mut folders = FoldersIndex {
        folders: vec![folder("f1", "A", "w2", &[]), folder("f2", "B", "w1", &[])],
    };
    let mut chats = ChatsIndex {
        chats: vec![
            chat("c1", "x", "w2", None),
            chat("c2", "y", "w1", None),
            chat("c3", "z", "w2", None),
        ],
    };
    let removed = delete_workspace(&mut ws, &mut folders, &mut chats, "w2").unwrap();
    assert_eq!(removed, vec!["c1".to_string(), "c3".to_string()]);
    assert_eq!(ws.workspaces.len(), 1);
    assert_eq!(ws.workspaces[0].id, "w1");
    assert_eq!(ws.active_workspace_id, "w1");
    assert!(folders.folders.iter().all(|f| f.workspace_id != "w2"));
    assert_eq!(folders.folders.len(), 1);
    assert!(chats.chats.iter().all(|c| c.workspace_id != "w2"));
    assert_eq!(chats.chats.len(), 1);
    assert_eq!(chats.chats[0].id, "c2");
}

#[test]
fn delete_inactive_workspace_keeps_active_pointer() {
    let mut ws = WorkspacesIndex {
        workspaces: vec![workspace("w1", "Main"), workspace("w2", "Side")],
        active_workspace_id: "w1".to_string(),
    };
    let mut folders = FoldersIndex { folders: vec![] };
    let mut chats = ChatsIndex { chats: vec![] };
    delete_workspace(&mut ws, &mut folders, &mut chats, "w2").unwrap();
    assert_eq!(ws.active_workspace_id, "w1");
}

#[test]
fn delete_unknown_workspace_fails() {
    let mut ws = WorkspacesIndex {
        workspaces: vec![workspace("w1", "Main"), workspace("w2", "Side")],
        active_workspace_id: "w1".to_string(),
    };
    let mut folders = FoldersIndex { folders: vec![] };
    let mut chats = ChatsIndex { chats: vec![] };
    let r = delete_workspace(&mut ws, &mut folders, &mut chats, "w9");
    assert_eq!(r.unwrap_err(), CoreError::NotFound);
    assert_eq!(ws.workspaces.len(), 2);
}

#[test]
fn workspace_create_rename_activate() {
    let mut ws = default_workspaces_index();
    assert_eq!(ws.workspaces.len(), 1);
    assert_eq!(ws.workspaces[0].name, "My Workspace");
    assert_eq!(ws.active_workspace_id, ws.workspaces[0].id);
    let w = create_workspace(&mut ws, "  Second  ").unwrap();
    assert_eq!(w.name, "Second");
    assert_eq!(ws.workspaces.len(), 2);
    assert!(matches!(create_workspace(&mut ws, " "), Err(CoreError::Validation)));
    let wid = w.id.clone();
    assert_eq!(rename_workspace(&mut ws, &wid, "Renamed", "t5"), Ok(()));
    assert_eq!(ws.workspaces[1].name, "Renamed");
    assert_eq!(set_active_workspace(&mut ws, &wid), Ok(()));
    assert_eq!(ws.active_workspace_id, wid);
    assert_eq!(set_active_workspace(&mut ws, "nope"), Err(CoreError::NotFound));
}

#[test]
fn resolve_workspace_prefers_nonempty_argument() {
    let ws = WorkspacesIndex {
        workspaces: vec![workspace("w1", "Main")],
        active_workspace_id: "w1".to_string(),
    };
    assert_eq!(resolve_workspace_id(Some("w7".to_string()), &ws), "w7");
    assert_eq!(resolve_workspace_id(Some("".to_string()), &ws), "w1");
    assert_eq!(resolve_workspace_id(None, &ws), "w1");
}

#[test]
fn cascade_helpers_filter_by_workspace() {
    let mut chats = ChatsIndex {
        chats: vec![chat("c1", "x", "w1", None), chat("c2", "y", "w2", None)],
    };
    let removed = delete_chats_for_workspace(&mut chats, "w1");
    assert_eq!(removed, vec!["c1".to_string()]);
    assert_eq!(chats.chats.len(), 1);
    let mut folders = FoldersIndex {
        folders: vec![folder("f1", "A", "w1", &[]), folder("f2", "B", "w2", &[])],
    };
    delete_folders_for_workspace(&mut folders, "w1");
    assert_eq!(folders.folders.len(), 1);
    assert_eq!(folders.folders[0].id, "f2");
}

#[test]
fn chat_timestamp_and_folder_pointer_updates() {
    let mut chats = ChatsIndex { chats: vec![chat("c1", "x", "w1", None)] };
    update_chat_timestamp(&mut chats, "c1", "t7");
    assert_eq!(chats.chats[0].last_updated_at, "t7");
    update_chat_timestamp(&mut chats, "missing", "t8");
    assert_eq!(chats.chats[0].last_updated_at, "t7");
    set_chat_folder(&mut chats, "c1", Some("f1".to_string()), "t9");
    assert_eq!(chats.chats[0].folder_id, Some("f1".to_string()));
    assert_eq!(chats.chats[0].last_updated_at, "t9");
}

#[test]
fn message_log_appends_in_order() {
    let mut data = empty_chat_data();
    append_user_message(&mut data, "hi there");
    append_assistant_message(&mut data, "hello back");
    let msgs = get_chat_messages(&data);
    assert_eq!(msgs.len(), 2);
    assert_eq!(msgs[0].role, "user");
    assert_eq!(msgs[0].content, "hi there");
    assert_eq!(msgs[1].role, "assistant");
    assert_eq!(msgs[1].content, "hello back");
}

#[test]
fn chat_listing_copies() {
    let index = ChatsIndex {
        chats: vec![chat("c1", "x", "w1", None), chat("c2", "y", "w2", None)],
    };
    let all = get_all_chats(&index);
    assert_eq!(all.len(), 2);
    assert_eq!(all[1].id, "c2");
    let w2 = get_chats_for_workspace(&index, "w2");
    assert_eq!(w2.len(), 1);
    assert_eq!(w2[0].id, "c2");
}

#[test]
fn status_classification() {
    assert_eq!(classify_http_status(404), StatusClass::AbsentUpstream);
    assert_eq!(classify_http_status(400), StatusClass::BadRequest);
    assert_eq!(classify_http_status(500), StatusClass::BackendInternal);
    assert_eq!(classify_http_status(503), StatusClass::BackendInternal);
    assert_eq!(classify_http_status(418), StatusClass::Other);
}

#[test]
fn store_paths() {
    assert_eq!(get_index_path(), "chats_index.json");
    assert_eq!(get_folders_index_path(), "folders.json");
    assert_eq!(get_workspaces_index_path(), "workspaces.json");
    assert_eq!(get_chat_file_path("abc"), "chats/abc.json");
}
