//! Operations on the folders index, including the paired attach/detach
//! operations that keep the folder-to-chat link bidirectional, and the
//! cascade that a folder deletion performs on its chats.

use vstd::prelude::*;

use crate::chats::{chat_pos, set_chat_folder, spec_set_chat_folder};
use crate::entities::{
    ChatMetaView, ChatsIndex, FolderMeta, FolderMetaView, FoldersIndex, FoldersIndexView,
};
use crate::errors::CoreError;
use crate::idgen::{new_entity_id, now_iso};
use crate::lookup::{
    first_match, is_first_match, lemma_first_match_at, lemma_first_match_exists,
    lemma_first_match_none, lemma_first_match_same,
};
use crate::strutil::{spec_trim, string_eq_str, trim_str};

verus! {

/// The predicate that keeps every id other than `dropped`.
pub open spec fn other_than(dropped: Seq<char>) -> spec_fn(Seq<char>) -> bool {
    |x: Seq<char>| x != dropped
}

/// The position of the first folder carrying `id`, if any.
pub open spec fn folder_pos(fs: Seq<FolderMetaView>, id: Seq<char>) -> Option<int> {
    first_match(fs, |f: FolderMetaView| f.id == id)
}

/// What a folder position means: the folder at it carries the id, nothing
/// before it does, and a missing position means no folder carries the id.
pub proof fn lemma_folder_pos_properties(fs: Seq<FolderMetaView>, id: Seq<char>)
    ensures
        match folder_pos(fs, id) {
            Some(k) => 0 <= k < fs.len() && fs[k].id == id && (forall|j: int|
                0 <= j < k ==> (#[trigger] fs[j]).id != id),
            None => forall|j: int| 0 <= j < fs.len() ==> (#[trigger] fs[j]).id != id,
        },
{
    let p = |f: FolderMetaView| f.id == id;
    match folder_pos(fs, id) {
        Some(k) => {
            assert(is_first_match(fs, p, k));
            assert(forall|j: int| 0 <= j < k ==> !p(#[trigger] fs[j]));
        },
        None => {
            assert forall|j: int| 0 <= j < fs.len() implies (#[trigger] fs[j]).id != id by {
                if fs[j].id == id {
                    lemma_first_match_exists(fs, p, j);
                }
            }
        },
    }
}

/// Two folder sequences with the same ids position every id alike.
pub proof fn lemma_folder_pos_same_ids(
    fs1: Seq<FolderMetaView>,
    fs2: Seq<FolderMetaView>,
    id: Seq<char>,
)
    requires
        fs1.len() == fs2.len(),
        forall|i: int| 0 <= i < fs1.len() ==> (#[trigger] fs1[i]).id == (#[trigger] fs2[i]).id,
    ensures
        folder_pos(fs1, id) == folder_pos(fs2, id),
{
    lemma_first_match_same(fs1, fs2, |f: FolderMetaView| f.id == id);
}

/// Find the first folder carrying `folder_id` in the index.
pub fn find_folder(index: &FoldersIndex, folder_id: &str) -> (r: Option<usize>)
    ensures
        match r {
            Some(i) => i < index.folders.len() && folder_pos(index@.folders, folder_id@) == Some(
                i as int,
            ),
            None => folder_pos(index@.folders, folder_id@) is None,
        },
{
    let mut i: usize = 0;
    while i < index.folders.len()
        invariant
            i <= index.folders.len(),
            forall|j: int| 0 <= j < i ==> index@.folders[j].id != folder_id@,
        decreases index.folders.len() - i,
    {
        if string_eq_str(&index.folders[i].id, folder_id) {
            proof {
                lemma_first_match_at(
                    index@.folders,
                    |f: FolderMetaView| f.id == folder_id@,
                    i as int,
                );
            }
            return Some(i);
        }
        i = i + 1;
    }
    proof {
        lemma_first_match_none(index@.folders, |f: FolderMetaView| f.id == folder_id@);
    }
    None
}

/// Whether a folder's chat list holds `chat_id`.
pub fn folder_lists_chat(folder: &FolderMeta, chat_id: &str) -> (r: bool)
    ensures
        r == folder@.chat_ids.contains(chat_id@),
{
    let mut i: usize = 0;
    while i < folder.chat_ids.len()
        invariant
            i <= folder.chat_ids.len(),
            forall|j: int| 0 <= j < i ==> folder@.chat_ids[j] != chat_id@,
        decreases folder.chat_ids.len() - i,
    {
        if string_eq_str(&folder.chat_ids[i], chat_id) {
            assert(folder@.chat_ids[i as int] == chat_id@);
            return true;
        }
        i = i + 1;
    }
    false
}

/// What removing a chat id from one folder's list does to the folders: the
/// first folder carrying `folder_id` keeps every other id, in order; a
/// missing folder changes nothing. The folder's timestamp is not touched.
pub open spec fn spec_remove_chat_from_list(
    fs: Seq<FolderMetaView>,
    folder_id: Seq<char>,
    chat_id: Seq<char>,
) -> Seq<FolderMetaView> {
    match folder_pos(fs, folder_id) {
        Some(k) => fs.update(
            k,
            (FolderMetaView {
                chat_ids: fs[k].chat_ids.filter(other_than(chat_id)),
                ..fs[k]
            }),
        ),
        None => fs,
    }
}

/// Drop `chat_id` from the chat list of the first folder carrying
/// `folder_id`; a missing folder is a no-op.
pub fn remove_chat_from_folder_list(index: &mut FoldersIndex, folder_id: &str, chat_id: &str)
    ensures
        final(index)@.folders == spec_remove_chat_from_list(
            old(index)@.folders,
            folder_id@,
            chat_id@,
        ),
{
    match find_folder(index, folder_id) {
        Some(k) => {
            let filtered = retain_other_ids(&index.folders[k].chat_ids, chat_id);
            index.folders[k].chat_ids = filtered;
            proof {
                let j = folder_pos(old(index)@.folders, folder_id@)->0;
                assert(final(index)@.folders =~= old(index)@.folders.update(
                    j,
                    (FolderMetaView {
                        chat_ids: old(index)@.folders[j].chat_ids.filter(other_than(chat_id@)),
                        ..old(index)@.folders[j]
                    }),
                ));
            }
        },
        None => {
            proof {
                assert(final(index)@.folders =~= old(index)@.folders);
            }
        },
    }
}

/// The ids of `v` other than `dropped`, in order.
fn retain_other_ids(v: &Vec<String>, dropped: &str) -> (r: Vec<String>)
    ensures
        r@.map_values(|s: String| s@) == v@.map_values(|s: String| s@).filter(
            other_than(dropped@),
        ),
{
    let ghost pred = other_than(dropped@);
    let ghost ids = v@.map_values(|s: String| s@);
    let mut r: Vec<String> = Vec::new();
    let mut i: usize = 0;
    proof {
        reveal(Seq::filter);
        assert(ids.subrange(0, 0).filter(pred) =~= Seq::<Seq<char>>::empty());
    }
    while i < v.len()
        invariant
            i <= v.len(),
            ids == v@.map_values(|s: String| s@),
            ids.len() == v@.len(),
            r@.map_values(|s: String| s@) == ids.subrange(0, i as int).filter(pred),
            pred == other_than(dropped@),
        decreases v.len() - i,
    {
        proof {
            reveal(Seq::filter);
            assert(ids.subrange(0, i + 1).drop_last() =~= ids.subrange(0, i as int));
            assert(ids.subrange(0, i + 1).last() == ids[i as int]);
        }
        if !string_eq_str(&v[i], dropped) {
            r.push(v[i].clone());
        }
        proof {
            reveal(Seq::filter);
            assert(r@.map_values(|s: String| s@) =~= ids.subrange(0, i + 1).filter(pred));
        }
        i = i + 1;
    }
    proof {
        assert(ids.subrange(0, ids.len() as int) =~= ids);
    }
    r
}

/// Remove every folder of one workspace from the index.
pub fn delete_folders_for_workspace(index: &mut FoldersIndex, workspace_id: &str)
    ensures
        final(index)@.folders == old(index)@.folders.filter(
            |f: FolderMetaView| f.workspace_id != workspace_id@,
        ),
{
    let ghost keep = |f: FolderMetaView| f.workspace_id != workspace_id@;
    let mut kept: Vec<FolderMeta> = Vec::new();
    let mut i: usize = 0;
    proof {
        reveal(Seq::filter);
        assert(index@.folders.subrange(0, 0).filter(keep) =~= Seq::<FolderMetaView>::empty());
    }
    while i < index.folders.len()
        invariant
            i <= index.folders.len(),
            kept@.map_values(|f: FolderMeta| f@) == index@.folders.subrange(0, i as int).filter(
                keep,
            ),
            keep == (|f: FolderMetaView| f.workspace_id != workspace_id@),
        decreases index.folders.len() - i,
    {
        proof {
            reveal(Seq::filter);
            assert(index@.folders.subrange(0, i + 1).drop_last() =~= index@.folders.subrange(
                0,
                i as int,
            ));
            assert(index@.folders.subrange(0, i + 1).last() == index@.folders[i as int]);
        }
        if !string_eq_str(&index.folders[i].workspace_id, workspace_id) {
            kept.push(index.folders[i].clone());
        }
        proof {
            reveal(Seq::filter);
            assert(kept@.map_values(|f: FolderMeta| f@) =~= index@.folders.subrange(0, i + 1).filter(
                keep,
            ));
        }
        i = i + 1;
    }
    proof {
        assert(index@.folders.subrange(0, index@.folders.len() as int) =~= index@.folders);
    }
    index.folders = kept;
}

/// The folders of one workspace, in index order.
pub fn get_folders_for_workspace(index: &FoldersIndex, workspace_id: &str) -> (r: Vec<FolderMeta>)
    ensures
        r@.map_values(|f: FolderMeta| f@) == index@.folders.filter(
            |f: FolderMetaView| f.workspace_id == workspace_id@,
        ),
{
    let ghost pred = |f: FolderMetaView| f.workspace_id == workspace_id@;
    let mut r: Vec<FolderMeta> = Vec::new();
    let mut i: usize = 0;
    proof {
        reveal(Seq::filter);
        assert(index@.folders.subrange(0, 0).filter(pred) =~= Seq::<FolderMetaView>::empty());
    }
    while i < index.folders.len()
        invariant
            i <= index.folders.len(),
            r@.map_values(|f: FolderMeta| f@) == index@.folders.subrange(0, i as int).filter(pred),
            pred == (|f: FolderMetaView| f.workspace_id == workspace_id@),
        decreases index.folders.len() - i,
    {
        proof {
            reveal(Seq::filter);
            assert(index@.folders.subrange(0, i + 1).drop_last() =~= index@.folders.subrange(
                0,
                i as int,
            ));
            assert(index@.folders.subrange(0, i + 1).last() == index@.folders[i as int]);
        }
        if string_eq_str(&index.folders[i].workspace_id, workspace_id) {
            r.push(index.folders[i].clone());
        }
        proof {
            reveal(Seq::filter);
            assert(r@.map_values(|f: FolderMeta| f@) =~= index@.folders.subrange(0, i + 1).filter(
                pred,
            ));
        }
        i = i + 1;
    }
    proof {
        assert(index@.folders.subrange(0, index@.folders.len() as int) =~= index@.folders);
    }
    r
}

/// Create a new folder in a workspace. The trimmed name must not be empty.
pub fn create_folder(index: &mut FoldersIndex, workspace_id: &str, name: &str) -> (r: Result<
    FolderMeta,
    CoreError,
>)
    ensures
        spec_trim(name@).len() == 0 ==> r == Err::<FolderMeta, CoreError>(CoreError::Validation)
            && final(index)@ == old(index)@,
        spec_trim(name@).len() > 0 ==> match r {
            Ok(f) => {
                &&& final(index)@.folders == old(index)@.folders.push(f@)
                &&& f@.name == spec_trim(name@)
                &&& f@.workspace_id == workspace_id@
                &&& f@.chat_ids.len() == 0
                &&& f@.tags.len() == 0
                &&& f@.id.len() == 36
                &&& f@.created_at == f@.last_updated_at
            },
            Err(_) => false,
        },
{
    let trimmed = trim_str(name);
    if trimmed.is_empty() {
        return Err(CoreError::Validation);
    }
    let id = new_entity_id();
    let now = now_iso();
    let folder = FolderMeta {
        id,
        name: trimmed.to_owned(),
        workspace_id: workspace_id.to_owned(),
        chat_ids: Vec::new(),
        tags: Vec::new(),
        created_at: now.clone(),
        last_updated_at: now,
    };
    let r = folder.clone();
    index.folders.push(folder);
    proof {
        assert(final(index)@.folders =~= old(index)@.folders.push(r@));
        assert(r@.chat_ids =~= Seq::<Seq<char>>::empty());
        assert(r@.tags =~= Seq::<Seq<char>>::empty());
    }
    Ok(r)
}

/// Rename the first folder carrying `folder_id`. The new name is trimmed; an
/// empty trimmed name is rejected, an unmatched id is not found.
pub fn rename_folder(index: &mut FoldersIndex, folder_id: &str, new_name: &str, now: &str) -> (r:
    Result<(), CoreError>)
    ensures
        spec_trim(new_name@).len() == 0 ==> r == Err::<(), CoreError>(CoreError::Validation)
            && final(index)@ == old(index)@,
        spec_trim(new_name@).len() > 0 ==> match folder_pos(old(index)@.folders, folder_id@) {
            Some(i) => r == Ok::<(), CoreError>(()) && final(index)@.folders == old(
                index,
            )@.folders.update(
                i,
                (FolderMetaView {
                    name: spec_trim(new_name@),
                    last_updated_at: now@,
                    ..old(index)@.folders[i]
                }),
            ),
            None => r == Err::<(), CoreError>(CoreError::NotFound) && final(index)@ == old(index)@,
        },
{
    let trimmed = trim_str(new_name);
    if trimmed.is_empty() {
        return Err(CoreError::Validation);
    }
    match find_folder(index, folder_id) {
        Some(i) => {
            index.folders[i].name = trimmed.to_owned();
            index.folders[i].last_updated_at = now.to_owned();
            proof {
                let j = folder_pos(old(index)@.folders, folder_id@)->0;
                assert(final(index)@.folders =~= old(index)@.folders.update(
                    j,
                    (FolderMetaView {
                        name: spec_trim(new_name@),
                        last_updated_at: now@,
                        ..old(index)@.folders[j]
                    }),
                ));
            }
            Ok(())
        },
        None => {
            proof {
                assert(final(index)@ =~= old(index)@);
            }
            Err(CoreError::NotFound)
        },
    }
}

/// Releasing a sequence of chats from their folder, one after the other: each
/// id's first matching chat gets no folder and a fresh timestamp.
pub open spec fn spec_release_chats(
    cs: Seq<ChatMetaView>,
    ids: Seq<Seq<char>>,
    now: Seq<char>,
) -> Seq<ChatMetaView>
    decreases ids.len(),
{
    if ids.len() == 0 {
        cs
    } else {
        spec_set_chat_folder(spec_release_chats(cs, ids.drop_last(), now), ids.last(), None, now)
    }
}

/// Delete the first folder carrying `folder_id` and release all its chats:
/// each chat named in the folder's list loses its folder pointer.
pub fn delete_folder(
    folders: &mut FoldersIndex,
    chats: &mut ChatsIndex,
    folder_id: &str,
    now: &str,
) -> (r: Result<(), CoreError>)
    ensures
        match folder_pos(old(folders)@.folders, folder_id@) {
            Some(k) => {
                &&& r == Ok::<(), CoreError>(())
                &&& final(folders)@.folders == old(folders)@.folders.remove(k)
                &&& final(chats)@.chats == spec_release_chats(
                    old(chats)@.chats,
                    old(folders)@.folders[k].chat_ids,
                    now@,
                )
            },
            None => r == Err::<(), CoreError>(CoreError::NotFound) && final(folders)@ == old(
                folders,
            )@ && final(chats)@ == old(chats)@,
        },
{
    match find_folder(folders, folder_id) {
        Some(k) => {
            let released = clone_id_list(&folders.folders[k].chat_ids);
            folders.folders.remove(k);
            let ghost ids = old(folders)@.folders[k as int].chat_ids;
            let mut i: usize = 0;
            while i < released.len()
                invariant
                    i <= released.len(),
                    released@.map_values(|s: String| s@) == ids,
                    released@.len() == ids.len(),
                    chats@.chats == spec_release_chats(
                        old(chats)@.chats,
                        ids.subrange(0, i as int),
                        now@,
                    ),
                decreases released.len() - i,
            {
                set_chat_folder(chats, released[i].as_str(), None, now);
                proof {
                    assert(ids.subrange(0, i + 1).drop_last() =~= ids.subrange(0, i as int));
                    assert(ids.subrange(0, i + 1).last() == ids[i as int]);
                }
                i = i + 1;
            }
            proof {
                assert(ids.subrange(0, ids.len() as int) =~= ids);
            }
            Ok(())
        },
        None => {
            proof {
                assert(final(folders)@ =~= old(folders)@);
            }
            Err(CoreError::NotFound)
        },
    }
}

/// Copy a list of ids, keeping every character.
fn clone_id_list(v: &Vec<String>) -> (r: Vec<String>)
    ensures
        r@.map_values(|s: String| s@) == v@.map_values(|s: String| s@),
        r@.len() == v@.len(),
{
    let mut r: Vec<String> = Vec::new();
    let mut i: usize = 0;
    while i < v.len()
        invariant
            i <= v.len(),
            r@.len() == i,
            forall|k: int| 0 <= k < i ==> r@[k]@ == v@[k]@,
        decreases v.len() - i,
    {
        r.push(v[i].clone());
        i = i + 1;
    }
    proof {
        assert(r@.map_values(|s: String| s@) =~= v@.map_values(|s: String| s@));
    }
    r
}

/// What attaching a chat to a folder does to both indices: the folder's list
/// gains the id unless it already holds it, and the chat's folder pointer is
/// set either way.
pub open spec fn spec_add_chat_to_folder(
    fs: Seq<FolderMetaView>,
    cs: Seq<ChatMetaView>,
    folder_id: Seq<char>,
    chat_id: Seq<char>,
    now: Seq<char>,
) -> Result<(Seq<FolderMetaView>, Seq<ChatMetaView>), CoreError> {
    match folder_pos(fs, folder_id) {
        Some(k) => {
            let fs1 = if fs[k].chat_ids.contains(chat_id) {
                fs
            } else {
                fs.update(
                    k,
                    (FolderMetaView {
                        chat_ids: fs[k].chat_ids.push(chat_id),
                        last_updated_at: now,
                        ..fs[k]
                    }),
                )
            };
            Ok((fs1, spec_set_chat_folder(cs, chat_id, Some(folder_id), now)))
        },
        None => Err(CoreError::NotFound),
    }
}

/// Attach a chat to a folder, updating both sides of the link: the folder's
/// chat list (idempotently) and the chat's folder pointer.
pub fn add_chat_to_folder(
    folders: &mut FoldersIndex,
    chats: &mut ChatsIndex,
    folder_id: &str,
    chat_id: &str,
    now: &str,
) -> (r: Result<(), CoreError>)
    ensures
        match spec_add_chat_to_folder(
            old(folders)@.folders,
            old(chats)@.chats,
            folder_id@,
            chat_id@,
            now@,
        ) {
            Ok(p) => r == Ok::<(), CoreError>(()) && final(folders)@.folders == p.0
                && final(chats)@.chats == p.1,
            Err(e) => r == Err::<(), CoreError>(e) && final(folders)@ == old(folders)@
                && final(chats)@ == old(chats)@,
        },
{
    match find_folder(folders, folder_id) {
        Some(k) => {
            if !folder_lists_chat(&folders.folders[k], chat_id) {
                folders.folders[k].chat_ids.push(chat_id.to_owned());
                folders.folders[k].last_updated_at = now.to_owned();
                proof {
                    let j = folder_pos(old(folders)@.folders, folder_id@)->0;
                    assert(folders@.folders =~~= old(folders)@.folders.update(
                        j,
                        (FolderMetaView {
                            chat_ids: old(folders)@.folders[j].chat_ids.push(chat_id@),
                            last_updated_at: now@,
                            ..old(folders)@.folders[j]
                        }),
                    ));
                }
            }
            set_chat_folder(chats, chat_id, Some(folder_id.to_owned()), now);
            Ok(())
        },
        None => {
            proof {
                assert(final(folders)@ =~= old(folders)@);
            }
            Err(CoreError::NotFound)
        },
    }
}

/// What detaching a chat from a folder does to both indices: the folder's
/// list loses the id, and the chat's folder pointer is cleared.
pub open spec fn spec_remove_chat_from_folder(
    fs: Seq<FolderMetaView>,
    cs: Seq<ChatMetaView>,
    folder_id: Seq<char>,
    chat_id: Seq<char>,
    now: Seq<char>,
) -> Result<(Seq<FolderMetaView>, Seq<ChatMetaView>), CoreError> {
    match folder_pos(fs, folder_id) {
        Some(k) => {
            let fs1 = fs.update(
                k,
                (FolderMetaView {
                    chat_ids: fs[k].chat_ids.filter(other_than(chat_id)),
                    last_updated_at: now,
                    ..fs[k]
                }),
            );
            Ok((fs1, spec_set_chat_folder(cs, chat_id, None, now)))
        },
        None => Err(CoreError::NotFound),
    }
}

/// Detach a chat from a folder, updating both sides of the link.
pub fn remove_chat_from_folder_cmd(
    folders: &mut FoldersIndex,
    chats: &mut ChatsIndex,
    folder_id: &str,
    chat_id: &str,
    now: &str,
) -> (r: Result<(), CoreError>)
    ensures
        match spec_remove_chat_from_folder(
            old(folders)@.folders,
            old(chats)@.chats,
            folder_id@,
            chat_id@,
            now@,
        ) {
            Ok(p) => r == Ok::<(), CoreError>(()) && final(folders)@.folders == p.0
                && final(chats)@.chats == p.1,
            Err(e) => r == Err::<(), CoreError>(e) && final(folders)@ == old(folders)@
                && final(chats)@ == old(chats)@,
        },
{
    match find_folder(folders, folder_id) {
        Some(k) => {
            let filtered = retain_other_ids(&folders.folders[k].chat_ids, chat_id);
            folders.folders[k].chat_ids = filtered;
            folders.folders[k].last_updated_at = now.to_owned();
            proof {
                let j = folder_pos(old(folders)@.folders, folder_id@)->0;
                assert(folders@.folders =~= old(folders)@.folders.update(
                    j,
                    (FolderMetaView {
                        chat_ids: old(folders)@.folders[j].chat_ids.filter(other_than(chat_id@)),
                        last_updated_at: now@,
                        ..old(folders)@.folders[j]
                    }),
                ));
            }
            set_chat_folder(chats, chat_id, None, now);
            Ok(())
        },
        None => {
            proof {
                assert(final(folders)@ =~= old(folders)@);
            }
            Err(CoreError::NotFound)
        },
    }
}

} // verus!
