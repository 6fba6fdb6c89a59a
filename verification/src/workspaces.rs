//! Operations on the workspaces index: creation, renaming, switching the
//! active workspace, and the guarded cascade delete that also removes the
//! workspace's folders and chats.

use vstd::prelude::*;

use crate::chats::delete_chats_for_workspace;
use crate::entities::{
    workspaces_well_formed, ChatMetaView, ChatsIndex, FolderMetaView, FoldersIndex, WorkspaceMeta,
    WorkspaceMetaView, WorkspacesIndex, WorkspacesIndexView,
};
use crate::errors::CoreError;
use crate::folders::delete_folders_for_workspace;
use crate::idgen::{new_entity_id, now_iso};
use crate::lookup::{first_match, lemma_first_match_at, lemma_first_match_none};
use crate::strutil::{spec_trim, string_eq_str, trim_str};

verus! {

broadcast use vstd::seq_lib::group_filter_ensures;

/// The position of the first workspace carrying `id`, if any.
pub open spec fn workspace_pos(ws: Seq<WorkspaceMetaView>, id: Seq<char>) -> Option<int> {
    first_match(ws, |w: WorkspaceMetaView| w.id == id)
}

/// Find the first workspace carrying `workspace_id` in the index.
pub fn find_workspace(index: &WorkspacesIndex, workspace_id: &str) -> (r: Option<usize>)
    ensures
        match r {
            Some(i) => i < index.workspaces.len() && workspace_pos(
                index@.workspaces,
                workspace_id@,
            ) == Some(i as int),
            None => workspace_pos(index@.workspaces, workspace_id@) is None,
        },
{
    let mut i: usize = 0;
    while i < index.workspaces.len()
        invariant
            i <= index.workspaces.len(),
            forall|j: int| 0 <= j < i ==> index@.workspaces[j].id != workspace_id@,
        decreases index.workspaces.len() - i,
    {
        if string_eq_str(&index.workspaces[i].id, workspace_id) {
            proof {
                lemma_first_match_at(
                    index@.workspaces,
                    |w: WorkspaceMetaView| w.id == workspace_id@,
                    i as int,
                );
            }
            return Some(i);
        }
        i = i + 1;
    }
    proof {
        lemma_first_match_none(index@.workspaces, |w: WorkspaceMetaView| w.id == workspace_id@);
    }
    None
}

/// The index synthesized on first run, when no workspaces file exists yet:
/// one default workspace, marked active.
pub fn default_workspaces_index() -> (r: WorkspacesIndex)
    ensures
        r@.workspaces.len() == 1,
        r@.active_workspace_id == r@.workspaces[0].id,
        r@.workspaces[0].name == "My Workspace"@,
        r@.workspaces[0].created_at == r@.workspaces[0].last_updated_at,
        workspaces_well_formed(r@),
{
    let id = new_entity_id();
    let now = now_iso();
    let workspace = WorkspaceMeta {
        id: id.clone(),
        name: "My Workspace".to_owned(),
        created_at: now.clone(),
        last_updated_at: now,
    };
    let mut workspaces: Vec<WorkspaceMeta> = Vec::new();
    workspaces.push(workspace);
    let r = WorkspacesIndex { workspaces, active_workspace_id: id };
    proof {
        assert(r@.workspaces[0].id == r@.active_workspace_id);
    }
    r
}

/// Create a new workspace. The trimmed name must not be empty.
pub fn create_workspace(index: &mut WorkspacesIndex, name: &str) -> (r: Result<
    WorkspaceMeta,
    CoreError,
>)
    ensures
        spec_trim(name@).len() == 0 ==> r == Err::<WorkspaceMeta, CoreError>(CoreError::Validation)
            && final(index)@ == old(index)@,
        spec_trim(name@).len() > 0 ==> match r {
            Ok(w) => {
                &&& final(index)@.workspaces == old(index)@.workspaces.push(w@)
                &&& final(index)@.active_workspace_id == old(index)@.active_workspace_id
                &&& w@.name == spec_trim(name@)
                &&& w@.id.len() == 36
                &&& w@.created_at == w@.last_updated_at
            },
            Err(_) => false,
        },
{
    let trimmed = trim_str(name);
    if trimmed.is_empty() {
        return Err(CoreError::Validation);
    }
    let id = new_entity_id();
    let now = now_iso();
    let workspace = WorkspaceMeta {
        id,
        name: trimmed.to_owned(),
        created_at: now.clone(),
        last_updated_at: now,
    };
    let r = workspace.clone();
    index.workspaces.push(workspace);
    proof {
        assert(final(index)@.workspaces =~= old(index)@.workspaces.push(r@));
    }
    Ok(r)
}

/// Rename the first workspace carrying `workspace_id`. The new name is
/// trimmed; an empty trimmed name is rejected, an unmatched id is not found.
pub fn rename_workspace(
    index: &mut WorkspacesIndex,
    workspace_id: &str,
    new_name: &str,
    now: &str,
) -> (r: Result<(), CoreError>)
    ensures
        spec_trim(new_name@).len() == 0 ==> r == Err::<(), CoreError>(CoreError::Validation)
            && final(index)@ == old(index)@,
        spec_trim(new_name@).len() > 0 ==> match workspace_pos(
            old(index)@.workspaces,
            workspace_id@,
        ) {
            Some(i) => r == Ok::<(), CoreError>(()) && final(index)@.active_workspace_id == old(
                index,
            )@.active_workspace_id && final(index)@.workspaces == old(index)@.workspaces.update(
                i,
                (WorkspaceMetaView {
                    name: spec_trim(new_name@),
                    last_updated_at: now@,
                    ..old(index)@.workspaces[i]
                }),
            ),
            None => r == Err::<(), CoreError>(CoreError::NotFound) && final(index)@ == old(index)@,
        },
{
    let trimmed = trim_str(new_name);
    if trimmed.is_empty() {
        return Err(CoreError::Validation);
    }
    match find_workspace(index, workspace_id) {
        Some(i) => {
            index.workspaces[i].name = trimmed.to_owned();
            index.workspaces[i].last_updated_at = now.to_owned();
            proof {
                let j = workspace_pos(old(index)@.workspaces, workspace_id@)->0;
                assert(final(index)@.workspaces =~= old(index)@.workspaces.update(
                    j,
                    (WorkspaceMetaView {
                        name: spec_trim(new_name@),
                        last_updated_at: now@,
                        ..old(index)@.workspaces[j]
                    }),
                ));
            }
            Ok(())
        },
        None => {
            proof {
                assert(final(index)@ =~= old(index)@);
            }
            Err(CoreError::NotFound)
        },
    }
}

/// Make `workspace_id` the active workspace; it must exist.
pub fn set_active_workspace(index: &mut WorkspacesIndex, workspace_id: &str) -> (r: Result<
    (),
    CoreError,
>)
    ensures
        match workspace_pos(old(index)@.workspaces, workspace_id@) {
            Some(_) => r == Ok::<(), CoreError>(()) && final(index)@.workspaces == old(
                index,
            )@.workspaces && final(index)@.active_workspace_id == workspace_id@,
            None => r == Err::<(), CoreError>(CoreError::NotFound) && final(index)@ == old(index)@,
        },
{
    match find_workspace(index, workspace_id) {
        Some(_) => {
            index.active_workspace_id = workspace_id.to_owned();
            Ok(())
        },
        None => {
            proof {
                assert(final(index)@ =~= old(index)@);
            }
            Err(CoreError::NotFound)
        },
    }
}

/// Delete a workspace and cascade to its folders and chats. The sole
/// remaining workspace can never be deleted, so at least one always exists.
/// Returns the ids of the removed chats, in index order, so the caller can
/// delete their message-log files.
pub fn delete_workspace(
    index: &mut WorkspacesIndex,
    folders: &mut FoldersIndex,
    chats: &mut ChatsIndex,
    workspace_id: &str,
) -> (r: Result<Vec<String>, CoreError>)
    ensures
        old(index)@.workspaces.len() <= 1 ==> r == Err::<Vec<String>, CoreError>(
            CoreError::Validation,
        ) && final(index)@ == old(index)@ && final(folders)@ == old(folders)@ && final(chats)@
            == old(chats)@,
        old(index)@.workspaces.len() > 1 ==> match workspace_pos(
            old(index)@.workspaces,
            workspace_id@,
        ) {
            Some(i) => {
                &&& r is Ok
                &&& final(index)@.workspaces == old(index)@.workspaces.remove(i)
                &&& final(index)@.workspaces.len() >= 1
                &&& final(index)@.active_workspace_id == (if old(index)@.active_workspace_id
                    == workspace_id@ {
                    final(index)@.workspaces[0].id
                } else {
                    old(index)@.active_workspace_id
                })
                &&& final(folders)@.folders == old(folders)@.folders.filter(
                    |f: FolderMetaView| f.workspace_id != workspace_id@,
                )
                &&& final(chats)@.chats == old(chats)@.chats.filter(
                    |c: ChatMetaView| c.workspace_id != workspace_id@,
                )
                &&& r->Ok_0@.map_values(|s: String| s@) == old(chats)@.chats.filter(
                    |c: ChatMetaView| c.workspace_id == workspace_id@,
                ).map_values(|c: ChatMetaView| c.id)
                &&& forall|k: int|
                    0 <= k < final(folders)@.folders.len()
                        ==> #[trigger] final(folders)@.folders[k].workspace_id != workspace_id@
                &&& forall|k: int|
                    0 <= k < final(chats)@.chats.len()
                        ==> #[trigger] final(chats)@.chats[k].workspace_id != workspace_id@
            },
            None => r == Err::<Vec<String>, CoreError>(CoreError::NotFound) && final(index)@ == old(
                index,
            )@ && final(folders)@ == old(folders)@ && final(chats)@ == old(chats)@,
        },
{
    if index.workspaces.len() <= 1 {
        return Err(CoreError::Validation);
    }
    match find_workspace(index, workspace_id) {
        Some(i) => {
            index.workspaces.remove(i);
            if string_eq_str(&index.active_workspace_id, workspace_id) {
                if index.workspaces.len() == 0 {
                    index.active_workspace_id = String::new();
                } else {
                    index.active_workspace_id = index.workspaces[0].id.clone();
                }
            }
            delete_folders_for_workspace(folders, workspace_id);
            let removed = delete_chats_for_workspace(chats, workspace_id);
            Ok(removed)
        },
        None => {
            proof {
                assert(final(index)@ =~= old(index)@);
            }
            Err(CoreError::NotFound)
        },
    }
}


/// The workspace a new chat lands in: the one the caller named, or the
/// active workspace when none (or an empty id) was given.
pub fn resolve_workspace_id(provided: Option<String>, index: &WorkspacesIndex) -> (r: String)
    ensures
        r@ == (match provided {
            Some(w) => if w@.len() > 0 {
                w@
            } else {
                index@.active_workspace_id
            },
            None => index@.active_workspace_id,
        }),
{
    match provided {
        Some(w) => {
            if !w.as_str().is_empty() {
                w
            } else {
                index.active_workspace_id.clone()
            }
        },
        None => index.active_workspace_id.clone(),
    }
}

} // verus!
