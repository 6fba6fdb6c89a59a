use chatdesk::codec::{
    decode_chat_data, decode_chats_index, decode_folders_index, decode_workspaces_index,
    encode_chat_data, encode_chats_index, encode_folders_index, encode_workspaces_index,
};
use chatdesk::entities::{
    ChatData, ChatMessage, ChatMeta, ChatsIndex, FolderMeta, FoldersIndex, WorkspaceMeta,
    WorkspacesIndex,
};
use chatdesk::models::{
    Model, ModelDetails, ModelsResponse, RunningModel, RunningModelDetails, RunningModelsResponse,
};

fn meta(id: &str, title: &str, folder: Option<&str>) -> ChatMeta {
    ChatMeta {
        id: id.to_string(),
        chat_title: title.to_string(),
        file_location: format!(".data/chats/{}.json", id),
        model_used: "llama".to_string(),
        workspace_id: "w1".to_string(),
        folder_id: folder.map(|f| f.to_string()),
        created_at: "2024-01-01T00:00:00Z".to_string(),
        last_updated_at: "2024-01-02T00:00:00Z".to_string(),
    }
}

#[test]
fn chats_index_round_trips() {
    let index = ChatsIndex {
        chats: vec![
            meta("c1", "plain title", None),
            meta("c2", "has \"quotes\" and \\slashes\\", Some("f1")),
            meta("c3", "line\nbreak\ttab\rret", None),
        ],
    };
    let text = encode_chats_index(&index);
    let back = decode_chats_index(&text).expect("own encoding must parse");
    assert_eq!(back.chats.len(), 3);
    for (a, b) in index.chats.iter().zip(back.chats.iter()) {
        assert_eq!(a.id, b.id);
        assert_eq!(a.chat_title, b.chat_title);
        assert_eq!(a.file_location, b.file_location);
        assert_eq!(a.model_used, b.model_used);
        assert_eq!(a.workspace_id, b.workspace_id);
        assert_eq!(a.folder_id, b.folder_id);
        assert_eq!(a.created_at, b.created_at);
        assert_eq!(a.last_updated_at, b.last_updated_at);
    }
}

#[test]
fn empty_chats_index_round_trips() {
    let index = ChatsIndex { chats: vec![] };
    let text = encode_chats_index(&index);
    assert_eq!(text, "{\"chats\":[]}");
    let back = decode_chats_index(&text).unwrap();
    assert!(back.chats.is_empty());
}

#[test]
fn folders_index_round_trips() {
    let index = FoldersIndex {
        folders: vec![
            FolderMeta {
                id: "f1".to_string(),
                name: "Wörk 📁".to_string(),
                workspace_id: "w1".to_string(),
                chat_ids: vec!["c1".to_string(), "c2".to_string()],
                tags: vec!["alpha".to_string()],
                created_at: "t0".to_string(),
                last_updated_at: "t1".to_string(),
            },
            FolderMeta {
                id: "f2".to_string(),
                name: "Empty".to_string(),
                workspace_id: "w2".to_string(),
                chat_ids: vec![],
                tags: vec![],
                created_at: "t0".to_string(),
                last_updated_at: "t0".to_string(),
            },
        ],
    };
    let text = encode_folders_index(&index);
    let back = decode_folders_index(&text).unwrap();
    assert_eq!(back.folders.len(), 2);
    assert_eq!(back.folders[0].name, "Wörk 📁");
    assert_eq!(back.folders[0].chat_ids, vec!["c1".to_string(), "c2".to_string()]);
    assert_eq!(back.folders[0].tags, vec!["alpha".to_string()]);
    assert!(back.folders[1].chat_ids.is_empty());
}

#[test]
fn workspaces_index_round_trips() {
    let index = WorkspacesIndex {
        workspaces: vec![
            WorkspaceMeta {
                id: "w1".to_string(),
                name: "My Workspace".to_string(),
                created_at: "t0".to_string(),
                last_updated_at: "t0".to_string(),
            },
        ],
        active_workspace_id: "w1".to_string(),
    };
    let text = encode_workspaces_index(&index);
    assert_eq!(
        text,
        "{\"workspaces\":[{\"id\":\"w1\",\"name\":\"My Workspace\",\"created_at\":\"t0\",\"last_updated_at\":\"t0\"}],\"active_workspace_id\":\"w1\"}"
    );
    let back = decode_workspaces_index(&text).unwrap();
    assert_eq!(back.workspaces.len(), 1);
    assert_eq!(back.workspaces[0].name, "My Workspace");
    assert_eq!(back.active_workspace_id, "w1");
}

#[test]
fn chat_data_round_trips() {
    let data = ChatData {
        messages: vec![
            ChatMessage { role: "user".to_string(), content: "first\nsecond".to_string() },
            ChatMessage { role: "assistant".to_string(), content: "reply".to_string() },
        ],
    };
    let text = encode_chat_data(&data);
    let back = decode_chat_data(&text).unwrap();
    assert_eq!(back.messages.len(), 2);
    assert_eq!(back.messages[0].role, "user");
    assert_eq!(back.messages[0].content, "first\nsecond");
    assert_eq!(back.messages[1].content, "reply");
}

#[test]
fn empty_chat_data_encoding() {
    let data = ChatData { messages: vec![] };
    assert_eq!(encode_chat_data(&data), "{\"messages\":[]}");
    assert!(decode_chat_data("{\"messages\":[]}").unwrap().messages.is_empty());
}

#[test]
fn malformed_documents_are_rejected() {
    assert!(decode_chats_index("").is_none());
    assert!(decode_chats_index("{\"chats\":[}").is_none());
    assert!(decode_chats_index("{\"folders\":[]}").is_none());
    assert!(decode_chat_data("{\"messages\":[]} trailing").is_none());
    assert!(decode_workspaces_index("{\"workspaces\":[]}").is_none());
    assert!(decode_folders_index("{\"folders\":[{\"id\":\"f\"}]}").is_none());
}

#[test]
fn folder_id_null_and_string_forms() {
    let with_none = ChatsIndex { chats: vec![meta("c1", "t", None)] };
    let text = encode_chats_index(&with_none);
    assert!(text.contains("\"folder_id\":null"));
    let back = decode_chats_index(&text).unwrap();
    assert_eq!(back.chats[0].folder_id, None);

    let with_some = ChatsIndex { chats: vec![meta("c1", "t", Some("f1"))] };
    let text2 = encode_chats_index(&with_some);
    assert!(text2.contains("\"folder_id\":\"f1\""));
    let back2 = decode_chats_index(&text2).unwrap();
    assert_eq!(back2.chats[0].folder_id, Some("f1".to_string()));
}

#[test]
fn encoded_index_is_valid_json_for_other_readers() {
    let index = ChatsIndex { chats: vec![meta("c1", "quote \" in title", Some("f"))] };
    let text = encode_chats_index(&index);
    let v: serde_json::Value = serde_json::from_str(&text).unwrap();
    assert_eq!(v["chats"][0]["chat_title"], "quote \" in title");
    assert_eq!(v["chats"][0]["folder_id"], "f");
}

#[test]
fn model_catalog_carries_values() {
    let catalog = ModelsResponse {
        models: vec![Model {
            name: "llama3:8b".to_string(),
            model: "llama3:8b".to_string(),
            modified_at: "t".to_string(),
            size: 4_200_000_000,
            digest: "abc".to_string(),
            details: ModelDetails {
                format: "gguf".to_string(),
                family: "llama".to_string(),
                families: vec!["llama".to_string()],
                parameter_size: "8B".to_string(),
                quantization_level: "Q4".to_string(),
            },
        }],
    };
    let models = catalog.into_models();
    assert_eq!(models.len(), 1);
    assert_eq!(models[0].name, "llama3:8b");
    let running = RunningModelsResponse {
        models: vec![RunningModel {
            name: "llama3:8b".to_string(),
            model: "llama3:8b".to_string(),
            size: 1,
            digest: "d".to_string(),
            details: RunningModelDetails {
                parent_model: "".to_string(),
                format: "gguf".to_string(),
                family: "llama".to_string(),
                families: vec![],
                parameter_size: "8B".to_string(),
                quantization_level: "Q4".to_string(),
            },
            expires_at: "t".to_string(),
            size_vram: 2,
            context_length: 4096,
        }],
    };
    assert_eq!(running.into_models()[0].context_length, 4096);
}
