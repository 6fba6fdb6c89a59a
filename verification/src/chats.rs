//! Operations on the chats index: creation with a derived title, timestamp
//! and folder-pointer updates, deletion, cascade removal by workspace, and
//! title search.

use vstd::prelude::*;

use crate::entities::{
    ChatData, ChatMessage, ChatMessageView, ChatMeta, ChatMetaView, ChatsIndex, ChatsIndexView,
    FoldersIndex, FoldersIndexView,
};
use crate::errors::CoreError;
use crate::folders::{remove_chat_from_folder_list, spec_remove_chat_from_list};
use crate::idgen::{new_entity_id, now_iso};
use crate::lookup::{
    first_match, is_first_match, lemma_first_match_at, lemma_first_match_exists,
    lemma_first_match_none, lemma_first_match_same,
};
use crate::strutil::{lower_of, lowercase, spec_contains, spec_trim, str_contains, string_eq_str, trim_str};

verus! {

/// Characters of a first message kept when deriving a chat title.
pub const TITLE_LIMIT: usize = 50;

/// The title derived from a chat's first message: the message itself, or its
/// first `TITLE_LIMIT` characters followed by an ellipsis marker.
pub open spec fn spec_title(m: Seq<char>) -> Seq<char> {
    if m.len() > TITLE_LIMIT {
        m.subrange(0, TITLE_LIMIT as int) + "..."@
    } else {
        m
    }
}

/// Derive a chat title from the first message of the conversation.
pub fn derive_chat_title(first_message: &str) -> (r: String)
    ensures
        r@ == spec_title(first_message@),
{
    let n = first_message.unicode_len();
    if n > TITLE_LIMIT {
        let mut t = first_message.substring_char(0, TITLE_LIMIT).to_owned();
        t.append("...");
        t
    } else {
        first_message.to_owned()
    }
}

/// The position of the first chat carrying `id`, if any.
pub open spec fn chat_pos(cs: Seq<ChatMetaView>, id: Seq<char>) -> Option<int> {
    first_match(cs, |c: ChatMetaView| c.id == id)
}

/// What a chat position means: the chat at it carries the id, nothing
/// before it does, and a missing position means no chat carries the id.
pub proof fn lemma_chat_pos_properties(cs: Seq<ChatMetaView>, id: Seq<char>)
    ensures
        match chat_pos(cs, id) {
            Some(m) => 0 <= m < cs.len() && cs[m].id == id && (forall|j: int|
                0 <= j < m ==> (#[trigger] cs[j]).id != id),
            None => forall|j: int| 0 <= j < cs.len() ==> (#[trigger] cs[j]).id != id,
        },
{
    let p = |c: ChatMetaView| c.id == id;
    match chat_pos(cs, id) {
        Some(m) => {
            assert(is_first_match(cs, p, m));
            assert(forall|j: int| 0 <= j < m ==> !p(#[trigger] cs[j]));
        },
        None => {
            assert forall|j: int| 0 <= j < cs.len() implies (#[trigger] cs[j]).id != id by {
                if cs[j].id == id {
                    lemma_first_match_exists(cs, p, j);
                }
            }
        },
    }
}

/// Two chat sequences with the same ids position every id alike.
pub proof fn lemma_chat_pos_same_ids(cs1: Seq<ChatMetaView>, cs2: Seq<ChatMetaView>, id: Seq<char>)
    requires
        cs1.len() == cs2.len(),
        forall|i: int| 0 <= i < cs1.len() ==> (#[trigger] cs1[i]).id == (#[trigger] cs2[i]).id,
    ensures
        chat_pos(cs1, id) == chat_pos(cs2, id),
{
    lemma_first_match_same(cs1, cs2, |c: ChatMetaView| c.id == id);
}

/// Find the first chat carrying `chat_id` in the index.
pub fn find_chat(index: &ChatsIndex, chat_id: &str) -> (r: Option<usize>)
    ensures
        match r {
            Some(i) => i < index.chats.len() && chat_pos(index@.chats, chat_id@) == Some(i as int),
            None => chat_pos(index@.chats, chat_id@) is None,
        },
{
    let mut i: usize = 0;
    while i < index.chats.len()
        invariant
            i <= index.chats.len(),
            forall|j: int| 0 <= j < i ==> index@.chats[j].id != chat_id@,
        decreases index.chats.len() - i,
    {
        if string_eq_str(&index.chats[i].id, chat_id) {
            proof {
                lemma_first_match_at(
                    index@.chats,
                    |c: ChatMetaView| c.id == chat_id@,
                    i as int,
                );
            }
            return Some(i);
        }
        i = i + 1;
    }
    proof {
        lemma_first_match_none(index@.chats, |c: ChatMetaView| c.id == chat_id@);
    }
    None
}

/// The stored location of a chat's message-log file, relative to the data
/// directory's parent.
pub fn chat_file_location(chat_id: &str) -> (r: String)
    ensures
        r@ == ".data/chats/"@ + chat_id@ + ".json"@,
{
    let mut r = String::new();
    r.append(".data/chats/");
    r.append(chat_id);
    r.append(".json");
    proof {
        assert(r@ =~= ".data/chats/"@ + chat_id@ + ".json"@);
    }
    r
}

/// Create a new chat: a fresh id, a title derived from the first message,
/// timestamps of this moment, and an entry appended to the index. The caller
/// persists the (empty) message log and the index.
pub fn create_new_chat(
    index: &mut ChatsIndex,
    model: &str,
    first_message: &str,
    workspace_id: &str,
    folder_id: Option<String>,
) -> (r: ChatMeta)
    ensures
        final(index)@.chats == old(index)@.chats.push(r@),
        r@.chat_title == spec_title(first_message@),
        r@.model_used == model@,
        r@.workspace_id == workspace_id@,
        r@.folder_id == (match folder_id {
            Some(f) => Some::<Seq<char>>(f@),
            None => None::<Seq<char>>,
        }),
        r@.id.len() == 36,
        r@.file_location == ".data/chats/"@ + r@.id + ".json"@,
        r@.created_at == r@.last_updated_at,
{
    let id = new_entity_id();
    let now = now_iso();
    let file_location = chat_file_location(id.as_str());
    let chat_title = derive_chat_title(first_message);
    let meta = ChatMeta {
        id,
        chat_title,
        file_location,
        model_used: model.to_owned(),
        workspace_id: workspace_id.to_owned(),
        folder_id,
        created_at: now.clone(),
        last_updated_at: now,
    };
    let r = meta.clone();
    index.chats.push(meta);
    proof {
        assert(final(index)@.chats =~= old(index)@.chats.push(r@));
    }
    r
}

/// Set the last-updated timestamp of the first chat carrying `chat_id`; a
/// missing chat leaves the index unchanged.
pub fn update_chat_timestamp(index: &mut ChatsIndex, chat_id: &str, now: &str)
    ensures
        match chat_pos(old(index)@.chats, chat_id@) {
            Some(i) => final(index)@.chats == old(index)@.chats.update(
                i,
                (ChatMetaView { last_updated_at: now@, ..old(index)@.chats[i] }),
            ),
            None => final(index)@ == old(index)@,
        },
{
    match find_chat(index, chat_id) {
        Some(i) => {
            index.chats[i].last_updated_at = now.to_owned();
            proof {
                let j = chat_pos(old(index)@.chats, chat_id@)->0;
                assert(final(index)@.chats =~= old(index)@.chats.update(
                    j,
                    (ChatMetaView { last_updated_at: now@, ..old(index)@.chats[j] }),
                ));
            }
        },
        None => {
            proof {
                assert(final(index)@ =~= old(index)@);
            }
        },
    }
}

/// Point the first chat carrying `chat_id` at `folder_id` (or at no folder),
/// updating its timestamp; a missing chat leaves the index unchanged. This
/// primitive updates only the chat's side of the folder link.
pub fn set_chat_folder(index: &mut ChatsIndex, chat_id: &str, folder_id: Option<String>, now: &str)
    ensures
        final(index)@ == (ChatsIndexView {
            chats: spec_set_chat_folder(
                old(index)@.chats,
                chat_id@,
                match folder_id {
                    Some(f) => Some(f@),
                    None => None,
                },
                now@,
            ),
        }),
{
    match find_chat(index, chat_id) {
        Some(i) => {
            index.chats[i].folder_id = folder_id;
            index.chats[i].last_updated_at = now.to_owned();
            proof {
                let j = chat_pos(old(index)@.chats, chat_id@)->0;
                assert(final(index)@.chats =~= old(index)@.chats.update(
                    j,
                    (ChatMetaView {
                        folder_id: final(index)@.chats[j].folder_id,
                        last_updated_at: now@,
                        ..old(index)@.chats[j]
                    }),
                ));
                assert(final(index)@ =~= (ChatsIndexView {
                    chats: spec_set_chat_folder(
                        old(index)@.chats,
                        chat_id@,
                        final(index)@.chats[j].folder_id,
                        now@,
                    ),
                }));
            }
        },
        None => {
            proof {
                assert(final(index)@ =~= old(index)@);
            }
        },
    }
}

/// What `set_chat_folder` does to the sequence of chats.
pub open spec fn spec_set_chat_folder(
    cs: Seq<ChatMetaView>,
    chat_id: Seq<char>,
    folder_id: Option<Seq<char>>,
    now: Seq<char>,
) -> Seq<ChatMetaView> {
    match chat_pos(cs, chat_id) {
        Some(i) => cs.update(
            i,
            (ChatMetaView { folder_id: folder_id, last_updated_at: now, ..cs[i] }),
        ),
        None => cs,
    }
}

/// Release the first chat carrying `chat_id` from its folder.
pub fn remove_chat_from_folder(index: &mut ChatsIndex, chat_id: &str, now: &str)
    ensures
        final(index)@ == (ChatsIndexView {
            chats: spec_set_chat_folder(old(index)@.chats, chat_id@, None, now@),
        }),
{
    set_chat_folder(index, chat_id, None, now)
}

/// A copy of every chat in the index, in index order.
pub fn get_all_chats(index: &ChatsIndex) -> (r: Vec<ChatMeta>)
    ensures
        r@.map_values(|c: ChatMeta| c@) == index@.chats,
{
    let mut r: Vec<ChatMeta> = Vec::new();
    let mut i: usize = 0;
    while i < index.chats.len()
        invariant
            i <= index.chats.len(),
            r@.len() == i,
            forall|k: int| 0 <= k < i ==> r@[k]@ == index@.chats[k],
        decreases index.chats.len() - i,
    {
        r.push(index.chats[i].clone());
        i = i + 1;
    }
    proof {
        assert(r@.map_values(|c: ChatMeta| c@) =~= index@.chats);
    }
    r
}

/// The chats of one workspace, in index order.
pub fn get_chats_for_workspace(index: &ChatsIndex, workspace_id: &str) -> (r: Vec<ChatMeta>)
    ensures
        r@.map_values(|c: ChatMeta| c@) == index@.chats.filter(
            |c: ChatMetaView| c.workspace_id == workspace_id@,
        ),
{
    let ghost pred = |c: ChatMetaView| c.workspace_id == workspace_id@;
    let mut r: Vec<ChatMeta> = Vec::new();
    let mut i: usize = 0;
    proof {
        reveal(Seq::filter);
        assert(index@.chats.subrange(0, 0).filter(pred) =~= Seq::<ChatMetaView>::empty());
    }
    while i < index.chats.len()
        invariant
            i <= index.chats.len(),
            r@.map_values(|c: ChatMeta| c@) == index@.chats.subrange(0, i as int).filter(pred),
            pred == (|c: ChatMetaView| c.workspace_id == workspace_id@),
        decreases index.chats.len() - i,
    {
        proof {
            reveal(Seq::filter);
            assert(index@.chats.subrange(0, i + 1).drop_last() =~= index@.chats.subrange(
                0,
                i as int,
            ));
            assert(index@.chats.subrange(0, i + 1).last() == index@.chats[i as int]);
        }
        if string_eq_str(&index.chats[i].workspace_id, workspace_id) {
            r.push(index.chats[i].clone());
            proof {
                reveal(Seq::filter);
                assert(r@.map_values(|c: ChatMeta| c@) =~= index@.chats.subrange(0, i + 1).filter(
                    pred,
                ));
            }
        } else {
            proof {
                reveal(Seq::filter);
                assert(r@.map_values(|c: ChatMeta| c@) =~= index@.chats.subrange(0, i + 1).filter(
                    pred,
                ));
            }
        }
        i = i + 1;
    }
    proof {
        assert(index@.chats.subrange(0, index@.chats.len() as int) =~= index@.chats);
    }
    r
}

/// Rename the first chat carrying `chat_id`. The new title is trimmed; an
/// empty trimmed title is rejected, an unmatched id is not found.
pub fn rename_chat(index: &mut ChatsIndex, chat_id: &str, new_title: &str, now: &str) -> (r: Result<
    (),
    CoreError,
>)
    ensures
        spec_trim(new_title@).len() == 0 ==> r == Err::<(), CoreError>(CoreError::Validation)
            && final(index)@ == old(index)@,
        spec_trim(new_title@).len() > 0 ==> match chat_pos(old(index)@.chats, chat_id@) {
            Some(i) => r == Ok::<(), CoreError>(()) && final(index)@.chats == old(
                index,
            )@.chats.update(
                i,
                (ChatMetaView {
                    chat_title: spec_trim(new_title@),
                    last_updated_at: now@,
                    ..old(index)@.chats[i]
                }),
            ),
            None => r == Err::<(), CoreError>(CoreError::NotFound) && final(index)@ == old(index)@,
        },
{
    let trimmed = trim_str(new_title);
    if trimmed.is_empty() {
        return Err(CoreError::Validation);
    }
    match find_chat(index, chat_id) {
        Some(i) => {
            index.chats[i].chat_title = trimmed.to_owned();
            index.chats[i].last_updated_at = now.to_owned();
            proof {
                let j = chat_pos(old(index)@.chats, chat_id@)->0;
                assert(final(index)@.chats =~= old(index)@.chats.update(
                    j,
                    (ChatMetaView {
                        chat_title: spec_trim(new_title@),
                        last_updated_at: now@,
                        ..old(index)@.chats[j]
                    }),
                ));
            }
            Ok(())
        },
        None => {
            proof {
                assert(final(index)@ =~= old(index)@);
            }
            Err(CoreError::NotFound)
        },
    }
}

/// Remove every chat of one workspace from the index, returning the removed
/// chat ids in index order so the caller can delete their message-log files.
pub fn delete_chats_for_workspace(index: &mut ChatsIndex, workspace_id: &str) -> (r: Vec<String>)
    ensures
        final(index)@.chats == old(index)@.chats.filter(
            |c: ChatMetaView| c.workspace_id != workspace_id@,
        ),
        r@.map_values(|s: String| s@) == old(index)@.chats.filter(
            |c: ChatMetaView| c.workspace_id == workspace_id@,
        ).map_values(|c: ChatMetaView| c.id),
{
    let ghost keep = |c: ChatMetaView| c.workspace_id != workspace_id@;
    let ghost gone = |c: ChatMetaView| c.workspace_id == workspace_id@;
    let mut kept: Vec<ChatMeta> = Vec::new();
    let mut removed: Vec<String> = Vec::new();
    let mut i: usize = 0;
    proof {
        reveal(Seq::filter);
        assert(index@.chats.subrange(0, 0).filter(keep) =~= Seq::<ChatMetaView>::empty());
        assert(index@.chats.subrange(0, 0).filter(gone) =~= Seq::<ChatMetaView>::empty());
    }
    while i < index.chats.len()
        invariant
            i <= index.chats.len(),
            kept@.map_values(|c: ChatMeta| c@) == index@.chats.subrange(0, i as int).filter(keep),
            removed@.map_values(|s: String| s@) == index@.chats.subrange(0, i as int).filter(
                gone,
            ).map_values(|c: ChatMetaView| c.id),
            keep == (|c: ChatMetaView| c.workspace_id != workspace_id@),
            gone == (|c: ChatMetaView| c.workspace_id == workspace_id@),
        decreases index.chats.len() - i,
    {
        proof {
            reveal(Seq::filter);
            assert(index@.chats.subrange(0, i + 1).drop_last() =~= index@.chats.subrange(
                0,
                i as int,
            ));
            assert(index@.chats.subrange(0, i + 1).last() == index@.chats[i as int]);
        }
        if string_eq_str(&index.chats[i].workspace_id, workspace_id) {
            removed.push(index.chats[i].id.clone());
            proof {
                reveal(Seq::filter);
                let sub0 = index@.chats.subrange(0, i as int);
                let sub1 = index@.chats.subrange(0, i + 1);
                assert(gone(index@.chats[i as int]));
                assert(sub1.filter(gone) == sub0.filter(gone).push(index@.chats[i as int]));
                let x = index@.chats[i as int].id;
                assert(removed@.map_values(|s: String| s@) =~= sub0.filter(gone).map_values(
                    |c: ChatMetaView| c.id,
                ).push(x));
                assert(sub1.filter(gone).map_values(|c: ChatMetaView| c.id) =~= sub0.filter(
                    gone,
                ).map_values(|c: ChatMetaView| c.id).push(x));
                assert(kept@.map_values(|c: ChatMeta| c@) =~= sub1.filter(keep));
            }
        } else {
            kept.push(index.chats[i].clone());
            proof {
                reveal(Seq::filter);
                assert(removed@.map_values(|s: String| s@) =~= index@.chats.subrange(
                    0,
                    i + 1,
                ).filter(gone).map_values(|c: ChatMetaView| c.id));
                assert(kept@.map_values(|c: ChatMeta| c@) =~= index@.chats.subrange(0, i + 1).filter(
                    keep,
                ));
            }
        }
        i = i + 1;
    }
    proof {
        assert(index@.chats.subrange(0, index@.chats.len() as int) =~= index@.chats);
    }
    index.chats = kept;
    removed
}

/// Which chats a title search returns: on an empty trimmed query, every chat
/// of the workspace; otherwise those whose case-folded title contains the
/// case-folded query, always in index order.
pub open spec fn spec_search(
    cs: Seq<ChatMetaView>,
    ws: Seq<char>,
    query: Seq<char>,
) -> Seq<ChatMetaView> {
    let q = lower_of(spec_trim(query));
    if q.len() == 0 {
        cs.filter(|c: ChatMetaView| c.workspace_id == ws)
    } else {
        cs.filter(
            |c: ChatMetaView| c.workspace_id == ws && spec_contains(lower_of(c.chat_title), q),
        )
    }
}

/// Search the chats of one workspace by title, case-insensitively.
pub fn search_chats(index: &ChatsIndex, workspace_id: &str, query: &str) -> (r: Vec<ChatMeta>)
    ensures
        r@.map_values(|c: ChatMeta| c@) == spec_search(index@.chats, workspace_id@, query@),
{
    let trimmed = trim_str(query);
    let q = lowercase(trimmed);
    if q.as_str().is_empty() {
        return get_chats_for_workspace(index, workspace_id);
    }
    let ghost pred = |c: ChatMetaView| c.workspace_id == workspace_id@ && spec_contains(
        lower_of(c.chat_title),
        lower_of(spec_trim(query@)),
    );
    let mut r: Vec<ChatMeta> = Vec::new();
    let mut i: usize = 0;
    proof {
        reveal(Seq::filter);
        assert(index@.chats.subrange(0, 0).filter(pred) =~= Seq::<ChatMetaView>::empty());
    }
    while i < index.chats.len()
        invariant
            i <= index.chats.len(),
            r@.map_values(|c: ChatMeta| c@) == index@.chats.subrange(0, i as int).filter(pred),
            q@ == lower_of(spec_trim(query@)),
            pred == (|c: ChatMetaView| c.workspace_id == workspace_id@ && spec_contains(
                lower_of(c.chat_title),
                lower_of(spec_trim(query@)),
            )),
        decreases index.chats.len() - i,
    {
        proof {
            reveal(Seq::filter);
            assert(index@.chats.subrange(0, i + 1).drop_last() =~= index@.chats.subrange(
                0,
                i as int,
            ));
            assert(index@.chats.subrange(0, i + 1).last() == index@.chats[i as int]);
        }
        let title_lower = lowercase(index.chats[i].chat_title.as_str());
        if string_eq_str(&index.chats[i].workspace_id, workspace_id) && str_contains(
            title_lower.as_str(),
            q.as_str(),
        ) {
            r.push(index.chats[i].clone());
        }
        proof {
            reveal(Seq::filter);
            assert(r@.map_values(|c: ChatMeta| c@) =~= index@.chats.subrange(0, i + 1).filter(
                pred,
            ));
        }
        i = i + 1;
    }
    proof {
        assert(index@.chats.subrange(0, index@.chats.len() as int) =~= index@.chats);
    }
    r
}

/// Delete the first chat carrying `chat_id`: detach it from its folder's chat
/// list if it has one, then remove it from the index. The caller deletes the
/// chat's message-log file afterwards.
pub fn delete_chat(chats: &mut ChatsIndex, folders: &mut FoldersIndex, chat_id: &str) -> (r: Result<
    (),
    CoreError,
>)
    ensures
        match chat_pos(old(chats)@.chats, chat_id@) {
            Some(i) => {
                &&& r == Ok::<(), CoreError>(())
                &&& final(chats)@.chats == old(chats)@.chats.remove(i)
                &&& final(folders)@ == (match old(chats)@.chats[i].folder_id {
                    Some(fid) => (FoldersIndexView {
                        folders: spec_remove_chat_from_list(old(folders)@.folders, fid, chat_id@),
                    }),
                    None => old(folders)@,
                })
            },
            None => r == Err::<(), CoreError>(CoreError::NotFound) && final(chats)@ == old(chats)@
                && final(folders)@ == old(folders)@,
        },
{
    match find_chat(chats, chat_id) {
        Some(i) => {
            let has_folder = chats.chats[i].folder_id.is_some();
            if has_folder {
                let fid = match &chats.chats[i].folder_id {
                    Some(f) => f.clone(),
                    None => String::new(),
                };
                remove_chat_from_folder_list(folders, fid.as_str(), chat_id);
            }
            chats.chats.remove(i);
            Ok(())
        },
        None => Err(CoreError::NotFound),
    }
}


/// An empty message log, as a brand-new chat has before its first save.
pub fn empty_chat_data() -> (r: ChatData)
    ensures
        r@.messages.len() == 0,
{
    let r = ChatData { messages: Vec::new() };
    proof {
        assert(r@.messages =~= Seq::<ChatMessageView>::empty());
    }
    r
}

/// Append the caller's message to a chat's log.
pub fn append_user_message(data: &mut ChatData, content: &str)
    ensures
        final(data)@.messages == old(data)@.messages.push(
            (ChatMessageView { role: "user"@, content: content@ }),
        ),
{
    data.messages.push(ChatMessage { role: "user".to_owned(), content: content.to_owned() });
    proof {
        assert(final(data)@.messages =~= old(data)@.messages.push(
            (ChatMessageView { role: "user"@, content: content@ }),
        ));
    }
}

/// Append the accumulated reply to a chat's log as one assistant message.
pub fn append_assistant_message(data: &mut ChatData, content: &str)
    ensures
        final(data)@.messages == old(data)@.messages.push(
            (ChatMessageView { role: "assistant"@, content: content@ }),
        ),
{
    data.messages.push(
        ChatMessage { role: "assistant".to_owned(), content: content.to_owned() },
    );
    proof {
        assert(final(data)@.messages =~= old(data)@.messages.push(
            (ChatMessageView { role: "assistant"@, content: content@ }),
        ));
    }
}

/// A copy of a chat's messages, in order.
pub fn get_chat_messages(data: &ChatData) -> (r: Vec<ChatMessage>)
    ensures
        r@.map_values(|m: ChatMessage| m@) == data@.messages,
{
    let copy = data.clone();
    copy.messages
}

} // verus!
