//! The three entity kinds of the store (workspaces, folders, chats), the
//! per-chat message log, and the events of the streaming pipeline, together
//! with their mathematical views and well-formedness predicates.

use vstd::prelude::*;

verus! {

/// One message of a chat conversation; `role` is `"user"` or `"assistant"`.
pub struct ChatMessage {
    pub role: String,
    pub content: String,
}

#[verifier::ext_equal]
pub struct ChatMessageView {
    pub role: Seq<char>,
    pub content: Seq<char>,
}

impl View for ChatMessage {
    type V = ChatMessageView;

    open spec fn view(&self) -> ChatMessageView {
        ChatMessageView { role: self.role@, content: self.content@ }
    }
}

impl Clone for ChatMessage {
    fn clone(&self) -> (r: Self)
        ensures
            r@ == self@,
    {
        ChatMessage { role: self.role.clone(), content: self.content.clone() }
    }
}

/// The full message log of one chat, stored in that chat's own file.
pub struct ChatData {
    pub messages: Vec<ChatMessage>,
}

#[verifier::ext_equal]
pub struct ChatDataView {
    pub messages: Seq<ChatMessageView>,
}

impl View for ChatData {
    type V = ChatDataView;

    open spec fn view(&self) -> ChatDataView {
        ChatDataView { messages: self.messages@.map_values(|m: ChatMessage| m@) }
    }
}

impl Clone for ChatData {
    fn clone(&self) -> (r: Self)
        ensures
            r@ == self@,
    {
        let mut messages: Vec<ChatMessage> = Vec::new();
        let mut i: usize = 0;
        while i < self.messages.len()
            invariant
                i <= self.messages.len(),
                messages@.len() == i,
                forall|k: int| 0 <= k < i ==> messages@[k]@ == self.messages@[k]@,
            decreases self.messages.len() - i,
        {
            messages.push(self.messages[i].clone());
            i = i + 1;
        }
        proof {
            assert(messages@.map_values(|m: ChatMessage| m@) =~= self.messages@.map_values(
                |m: ChatMessage| m@,
            ));
        }
        ChatData { messages }
    }
}

/// Metadata of one chat as it stands in the chats index.
pub struct ChatMeta {
    pub id: String,
    pub chat_title: String,
    pub file_location: String,
    pub model_used: String,
    pub workspace_id: String,
    pub folder_id: Option<String>,
    pub created_at: String,
    pub last_updated_at: String,
}

#[verifier::ext_equal]
pub struct ChatMetaView {
    pub id: Seq<char>,
    pub chat_title: Seq<char>,
    pub file_location: Seq<char>,
    pub model_used: Seq<char>,
    pub workspace_id: Seq<char>,
    pub folder_id: Option<Seq<char>>,
    pub created_at: Seq<char>,
    pub last_updated_at: Seq<char>,
}

impl View for ChatMeta {
    type V = ChatMetaView;

    open spec fn view(&self) -> ChatMetaView {
        ChatMetaView {
            id: self.id@,
            chat_title: self.chat_title@,
            file_location: self.file_location@,
            model_used: self.model_used@,
            workspace_id: self.workspace_id@,
            folder_id: match self.folder_id {
                Some(f) => Some(f@),
                None => None,
            },
            created_at: self.created_at@,
            last_updated_at: self.last_updated_at@,
        }
    }
}

impl Clone for ChatMeta {
    fn clone(&self) -> (r: Self)
        ensures
            r@ == self@,
    {
        ChatMeta {
            id: self.id.clone(),
            chat_title: self.chat_title.clone(),
            file_location: self.file_location.clone(),
            model_used: self.model_used.clone(),
            workspace_id: self.workspace_id.clone(),
            folder_id: match &self.folder_id {
                Some(f) => Some(f.clone()),
                None => None,
            },
            created_at: self.created_at.clone(),
            last_updated_at: self.last_updated_at.clone(),
        }
    }
}

/// The root of the chats index file: every chat's metadata, in index order.
pub struct ChatsIndex {
    pub chats: Vec<ChatMeta>,
}

#[verifier::ext_equal]
pub struct ChatsIndexView {
    pub chats: Seq<ChatMetaView>,
}

impl View for ChatsIndex {
    type V = ChatsIndexView;

    open spec fn view(&self) -> ChatsIndexView {
        ChatsIndexView { chats: self.chats@.map_values(|c: ChatMeta| c@) }
    }
}

/// Metadata of one folder: its chats (an ordered set of ids) and tags.
pub struct FolderMeta {
    pub id: String,
    pub name: String,
    pub workspace_id: String,
    pub chat_ids: Vec<String>,
    pub tags: Vec<String>,
    pub created_at: String,
    pub last_updated_at: String,
}

#[verifier::ext_equal]
pub struct FolderMetaView {
    pub id: Seq<char>,
    pub name: Seq<char>,
    pub workspace_id: Seq<char>,
    pub chat_ids: Seq<Seq<char>>,
    pub tags: Seq<Seq<char>>,
    pub created_at: Seq<char>,
    pub last_updated_at: Seq<char>,
}

impl View for FolderMeta {
    type V = FolderMetaView;

    open spec fn view(&self) -> FolderMetaView {
        FolderMetaView {
            id: self.id@,
            name: self.name@,
            workspace_id: self.workspace_id@,
            chat_ids: self.chat_ids@.map_values(|s: String| s@),
            tags: self.tags@.map_values(|s: String| s@),
            created_at: self.created_at@,
            last_updated_at: self.last_updated_at@,
        }
    }
}

impl Clone for FolderMeta {
    fn clone(&self) -> (r: Self)
        ensures
            r@ == self@,
    {
        FolderMeta {
            id: self.id.clone(),
            name: self.name.clone(),
            workspace_id: self.workspace_id.clone(),
            chat_ids: clone_strings(&self.chat_ids),
            tags: clone_strings(&self.tags),
            created_at: self.created_at.clone(),
            last_updated_at: self.last_updated_at.clone(),
        }
    }
}

/// Clone a vector of strings, keeping every character.
pub fn clone_strings(v: &Vec<String>) -> (r: Vec<String>)
    ensures
        r@.map_values(|s: String| s@) == v@.map_values(|s: String| s@),
{
    let mut r: Vec<String> = Vec::new();
    let mut i: usize = 0;
    while i < v.len()
        invariant
            i <= v.len(),
            r@.len() == i,
            forall|k: int| 0 <= k < i ==> r@[k]@ == v@[k]@,
        decreases v.len() - i,
    {
        r.push(v[i].clone());
        i = i + 1;
    }
    proof {
        assert(r@.map_values(|s: String| s@) =~= v@.map_values(|s: String| s@));
    }
    r
}

/// The root of the folders index file.
pub struct FoldersIndex {
    pub folders: Vec<FolderMeta>,
}

#[verifier::ext_equal]
pub struct FoldersIndexView {
    pub folders: Seq<FolderMetaView>,
}

impl View for FoldersIndex {
    type V = FoldersIndexView;

    open spec fn view(&self) -> FoldersIndexView {
        FoldersIndexView { folders: self.folders@.map_values(|f: FolderMeta| f@) }
    }
}

/// Metadata of one workspace.
pub struct WorkspaceMeta {
    pub id: String,
    pub name: String,
    pub created_at: String,
    pub last_updated_at: String,
}

#[verifier::ext_equal]
pub struct WorkspaceMetaView {
    pub id: Seq<char>,
    pub name: Seq<char>,
    pub created_at: Seq<char>,
    pub last_updated_at: Seq<char>,
}

impl View for WorkspaceMeta {
    type V = WorkspaceMetaView;

    open spec fn view(&self) -> WorkspaceMetaView {
        WorkspaceMetaView {
            id: self.id@,
            name: self.name@,
            created_at: self.created_at@,
            last_updated_at: self.last_updated_at@,
        }
    }
}

impl Clone for WorkspaceMeta {
    fn clone(&self) -> (r: Self)
        ensures
            r@ == self@,
    {
        WorkspaceMeta {
            id: self.id.clone(),
            name: self.name.clone(),
            created_at: self.created_at.clone(),
            last_updated_at: self.last_updated_at.clone(),
        }
    }
}

/// The root of the workspaces index file: the workspaces and which one is active.
pub struct WorkspacesIndex {
    pub workspaces: Vec<WorkspaceMeta>,
    pub active_workspace_id: String,
}

#[verifier::ext_equal]
pub struct WorkspacesIndexView {
    pub workspaces: Seq<WorkspaceMetaView>,
    pub active_workspace_id: Seq<char>,
}

impl View for WorkspacesIndex {
    type V = WorkspacesIndexView;

    open spec fn view(&self) -> WorkspacesIndexView {
        WorkspacesIndexView {
            workspaces: self.workspaces@.map_values(|w: WorkspaceMeta| w@),
            active_workspace_id: self.active_workspace_id@,
        }
    }
}

/// One progress event of the streaming pipeline, in emission order.
pub struct ChatStreamEvent {
    pub chat_id: String,
    pub content: String,
    pub done: bool,
    pub done_reason: Option<String>,
}

#[verifier::ext_equal]
pub struct ChatStreamEventView {
    pub chat_id: Seq<char>,
    pub content: Seq<char>,
    pub done: bool,
    pub done_reason: Option<Seq<char>>,
}

impl View for ChatStreamEvent {
    type V = ChatStreamEventView;

    open spec fn view(&self) -> ChatStreamEventView {
        ChatStreamEventView {
            chat_id: self.chat_id@,
            content: self.content@,
            done: self.done,
            done_reason: match self.done_reason {
                Some(r) => Some(r@),
                None => None,
            },
        }
    }
}

/// The terminal error event of a failed streaming invocation.
pub struct ChatStreamError {
    pub chat_id: String,
    pub error: String,
}

#[verifier::ext_equal]
pub struct ChatStreamErrorView {
    pub chat_id: Seq<char>,
    pub error: Seq<char>,
}

impl View for ChatStreamError {
    type V = ChatStreamErrorView;

    open spec fn view(&self) -> ChatStreamErrorView {
        ChatStreamErrorView { chat_id: self.chat_id@, error: self.error@ }
    }
}

/// A folder's chat list is an ordered set: no id occurs twice.
pub open spec fn chat_ids_unique(f: FolderMetaView) -> bool {
    forall|i: int, j: int|
        0 <= i < f.chat_ids.len() && 0 <= j < f.chat_ids.len() && i != j ==> f.chat_ids[i]
            != f.chat_ids[j]
}

/// A workspaces index is well formed when at least one workspace exists and
/// the active pointer names one of them.
pub open spec fn workspaces_well_formed(w: WorkspacesIndexView) -> bool {
    &&& w.workspaces.len() >= 1
    &&& exists|i: int| 0 <= i < w.workspaces.len() && w.workspaces[i].id == w.active_workspace_id
}


/// No two chats carry the same id.
pub open spec fn unique_chat_ids(cs: Seq<ChatMetaView>) -> bool {
    forall|i: int, j: int| 0 <= i < cs.len() && 0 <= j < cs.len() && i != j ==> cs[i].id != cs[j].id
}

/// No two folders carry the same id.
pub open spec fn unique_folder_ids(fs: Seq<FolderMetaView>) -> bool {
    forall|i: int, j: int| 0 <= i < fs.len() && 0 <= j < fs.len() && i != j ==> fs[i].id != fs[j].id
}

} // verus!
