//! Laws relating the coordinator's operations: attaching and then detaching
//! a chat leaves the folder without the chat and the chat without a folder,
//! and detaching during a chat deletion removes the id from the folder's
//! list while touching no other folder.

use vstd::prelude::*;

use crate::chats::{chat_pos, lemma_chat_pos_properties, lemma_chat_pos_same_ids};
use crate::entities::{
    chat_ids_unique, unique_chat_ids, unique_folder_ids, ChatMetaView, FolderMetaView,
};
use crate::folders::{
    folder_pos, lemma_folder_pos_properties, lemma_folder_pos_same_ids, other_than,
    spec_add_chat_to_folder, spec_remove_chat_from_folder, spec_remove_chat_from_list,
};
use crate::lookup::{
    first_match, is_first_match, lemma_first_match_exists, lemma_first_match_same,
};

verus! {

broadcast use vstd::seq_lib::group_filter_ensures;

/// Law: removing a chat id from a folder's list leaves that folder without
/// the id and every other folder untouched; a missing folder changes nothing.
/// This is what deleting a chat does to the folders index.
pub proof fn lemma_detached_chat_not_listed(
    fs: Seq<FolderMetaView>,
    folder_id: Seq<char>,
    chat_id: Seq<char>,
)
    ensures
        match folder_pos(fs, folder_id) {
            Some(k) => {
                &&& !spec_remove_chat_from_list(fs, folder_id, chat_id)[k].chat_ids.contains(
                    chat_id,
                )
                &&& forall|j: int|
                    0 <= j < fs.len() && j != k ==> spec_remove_chat_from_list(
                        fs,
                        folder_id,
                        chat_id,
                    )[j] == fs[j]
            },
            None => spec_remove_chat_from_list(fs, folder_id, chat_id) == fs,
        },
{
    match folder_pos(fs, folder_id) {
        Some(k) => {
            let filtered = fs[k].chat_ids.filter(other_than(chat_id));
            if filtered.contains(chat_id) {
                let idx = choose|i: int| 0 <= i < filtered.len() && filtered[i] == chat_id;
                assert(filtered[idx] != chat_id);
            }
        },
        None => {},
    }
}

/// Law: attaching a chat to an existing folder and then detaching it leaves
/// the folder's list without the chat's id and the chat without a folder
/// pointer, whatever both looked like before.
pub proof fn lemma_attach_then_detach(
    fs: Seq<FolderMetaView>,
    cs: Seq<ChatMetaView>,
    folder_id: Seq<char>,
    chat_id: Seq<char>,
    now1: Seq<char>,
    now2: Seq<char>,
)
    requires
        spec_add_chat_to_folder(fs, cs, folder_id, chat_id, now1) is Ok,
    ensures
        ({
            let p1 = spec_add_chat_to_folder(fs, cs, folder_id, chat_id, now1)->Ok_0;
            let r2 = spec_remove_chat_from_folder(p1.0, p1.1, folder_id, chat_id, now2);
            &&& r2 is Ok
            &&& folder_pos(r2->Ok_0.0, folder_id) == folder_pos(fs, folder_id)
            &&& !r2->Ok_0.0[folder_pos(fs, folder_id)->0].chat_ids.contains(chat_id)
            &&& match chat_pos(r2->Ok_0.1, chat_id) {
                Some(j) => r2->Ok_0.1[j].folder_id is None,
                None => chat_pos(cs, chat_id) is None,
            }
        }),
{
    let pfolder = |f: FolderMetaView| f.id == folder_id;
    let pchat = |c: ChatMetaView| c.id == chat_id;
    let k = folder_pos(fs, folder_id)->0;
    let p1 = spec_add_chat_to_folder(fs, cs, folder_id, chat_id, now1)->Ok_0;
    let fs1 = p1.0;
    let cs1 = p1.1;

    assert(forall|j: int|
        #![trigger pfolder(fs[j])]
        #![trigger pfolder(fs1[j])]
        0 <= j < fs.len() ==> fs1[j].id == fs[j].id);
    lemma_first_match_same(fs, fs1, pfolder);
    assert(folder_pos(fs1, folder_id) == Some(k));

    let r2 = spec_remove_chat_from_folder(fs1, cs1, folder_id, chat_id, now2);
    assert(r2 is Ok);
    let fs2 = r2->Ok_0.0;
    let cs2 = r2->Ok_0.1;

    assert(is_first_match(fs, pfolder, k));
    assert(fs1.len() == fs.len());
    assert(folder_pos(fs1, folder_id)->0 == k);
    let filtered = fs1[k].chat_ids.filter(other_than(chat_id));
    assert(fs2[k].chat_ids == filtered);
    if filtered.contains(chat_id) {
        let idx = choose|i: int| 0 <= i < filtered.len() && filtered[i] == chat_id;
        assert(filtered[idx] != chat_id);
    }
    lemma_first_match_same(fs1, fs2, pfolder);

    assert(forall|j: int|
        #![trigger pchat(cs[j])]
        #![trigger pchat(cs1[j])]
        0 <= j < cs.len() ==> cs1[j].id == cs[j].id);
    lemma_first_match_same(cs, cs1, pchat);
    match chat_pos(cs1, chat_id) {
        Some(j) => {
            assert(cs2[j].folder_id is None);
            assert(forall|t: int|
                #![trigger pchat(cs1[t])]
                #![trigger pchat(cs2[t])]
                0 <= t < cs1.len() ==> cs2[t].id == cs1[t].id);
            lemma_first_match_same(cs1, cs2, pchat);
        },
        None => {
            assert(cs2 == cs1);
        },
    }
}


/// Every id listed in a folder names a chat, and that chat points back at
/// the listing folder.
pub open spec fn folder_links_backed(fs: Seq<FolderMetaView>, cs: Seq<ChatMetaView>) -> bool {
    forall|i: int, t: int|
        #![trigger fs[i].chat_ids[t]]
        0 <= i < fs.len() && 0 <= t < fs[i].chat_ids.len() ==> {
            let m = chat_pos(cs, fs[i].chat_ids[t]);
            &&& m is Some
            &&& cs[m->0].folder_id == Some(fs[i].id)
        }
}

/// Every chat that points at a folder stands in that folder's list.
pub open spec fn chat_links_listed(fs: Seq<FolderMetaView>, cs: Seq<ChatMetaView>) -> bool {
    forall|m: int|
        #![trigger cs[m].folder_id]
        0 <= m < cs.len() && cs[m].folder_id is Some ==> {
            let k = folder_pos(fs, cs[m].folder_id->0);
            &&& k is Some
            &&& fs[k->0].chat_ids.contains(cs[m].id)
        }
}

/// The bidirectional link invariant between the folders and chats indices.
pub open spec fn links_consistent(fs: Seq<FolderMetaView>, cs: Seq<ChatMetaView>) -> bool {
    folder_links_backed(fs, cs) && chat_links_listed(fs, cs)
}

/// Law: attaching a detached chat to an existing folder preserves the
/// bidirectional link invariant, and every folder's chat list stays free of
/// duplicates. With its detach counterpart, this is why the paired
/// operations are the sanctioned way to mutate either side of the link.
pub proof fn lemma_attach_preserves_links(
    fs: Seq<FolderMetaView>,
    cs: Seq<ChatMetaView>,
    folder_id: Seq<char>,
    chat_id: Seq<char>,
    now: Seq<char>,
)
    requires
        links_consistent(fs, cs),
        unique_folder_ids(fs),
        forall|i: int| 0 <= i < fs.len() ==> chat_ids_unique(#[trigger] fs[i]),
        folder_pos(fs, folder_id) is Some,
        chat_pos(cs, chat_id) is Some,
        cs[chat_pos(cs, chat_id)->0].folder_id is None,
    ensures
        ({
            let r = spec_add_chat_to_folder(fs, cs, folder_id, chat_id, now);
            &&& r is Ok
            &&& links_consistent(r->Ok_0.0, r->Ok_0.1)
            &&& forall|i: int|
                0 <= i < r->Ok_0.0.len() ==> chat_ids_unique(#[trigger] r->Ok_0.0[i])
        }),
{
    let k = folder_pos(fs, folder_id)->0;
    let j = chat_pos(cs, chat_id)->0;
    lemma_folder_pos_properties(fs, folder_id);
    lemma_chat_pos_properties(cs, chat_id);

    // The chat points at no folder, so no folder's list holds its id.
    assert forall|i: int, t: int|
        0 <= i < fs.len() && 0 <= t < fs[i].chat_ids.len() implies #[trigger] fs[i].chat_ids[t]
        != chat_id by {
        if fs[i].chat_ids[t] == chat_id {
            assert(chat_pos(cs, fs[i].chat_ids[t]) is Some);
            assert(cs[j].folder_id == Some(fs[i].id));
        }
    }
    assert(!fs[k].chat_ids.contains(chat_id));

    let r = spec_add_chat_to_folder(fs, cs, folder_id, chat_id, now);
    let fs1 = r->Ok_0.0;
    let cs1 = r->Ok_0.1;
    assert(fs1 == fs.update(
        k,
        (FolderMetaView {
            chat_ids: fs[k].chat_ids.push(chat_id),
            last_updated_at: now,
            ..fs[k]
        }),
    ));
    assert(cs1 == cs.update(
        j,
        (ChatMetaView { folder_id: Some(folder_id), last_updated_at: now, ..cs[j] }),
    ));

    // Forward direction: every listed id still has a chat pointing back.
    assert forall|i: int, t: int|
        0 <= i < fs1.len() && 0 <= t < fs1[i].chat_ids.len() implies ({
            let m = chat_pos(cs1, #[trigger] fs1[i].chat_ids[t]);
            &&& m is Some
            &&& cs1[m->0].folder_id == Some(fs1[i].id)
        }) by {
        let e = fs1[i].chat_ids[t];
        lemma_chat_pos_same_ids(cs, cs1, e);
        if i == k && t == fs[k].chat_ids.len() {
            assert(e == chat_id);
            assert(chat_pos(cs1, e) == Some(j));
            assert(cs1[j].folder_id == Some(folder_id));
            assert(fs1[k].id == folder_id);
        } else {
            assert(e == fs[i].chat_ids[t]);
            let m0 = chat_pos(cs, e)->0;
            assert(chat_pos(cs, e) is Some && cs[m0].folder_id == Some(fs[i].id));
            assert(m0 != j);
            assert(cs1[m0] == cs[m0]);
            assert(fs1[i].id == fs[i].id);
        }
    }

    // Backward direction: every chat pointer has its id listed in the folder.
    assert forall|m: int|
        0 <= m < cs1.len() && (#[trigger] cs1[m].folder_id) is Some implies ({
            let kk = folder_pos(fs1, cs1[m].folder_id->0);
            &&& kk is Some
            &&& fs1[kk->0].chat_ids.contains(cs1[m].id)
        }) by {
        lemma_folder_pos_same_ids(fs, fs1, cs1[m].folder_id->0);
        if m == j {
            assert(cs1[j].folder_id->0 == folder_id);
            assert(folder_pos(fs1, folder_id) == Some(k));
            assert(fs1[k].chat_ids[fs[k].chat_ids.len() as int] == chat_id);
            assert(fs1[k].chat_ids.contains(cs1[j].id));
        } else {
            assert(cs1[m] == cs[m]);
            let k0 = folder_pos(fs, cs[m].folder_id->0)->0;
            assert(folder_pos(fs, cs[m].folder_id->0) is Some && fs[k0].chat_ids.contains(
                cs[m].id,
            ));
            if k0 == k {
                let t0 = choose|t: int|
                    0 <= t < fs[k].chat_ids.len() && fs[k].chat_ids[t] == cs[m].id;
                assert(fs1[k].chat_ids[t0] == cs[m].id);
                assert(fs1[k].chat_ids.contains(cs1[m].id));
            } else {
                assert(fs1[k0] == fs[k0]);
            }
        }
    }

    // No duplicate enters any list: the pushed id was listed nowhere.
    assert forall|i: int| 0 <= i < fs1.len() implies chat_ids_unique(#[trigger] fs1[i]) by {
        if i == k {
            let ids = fs1[k].chat_ids;
            assert forall|a: int, b: int|
                0 <= a < ids.len() && 0 <= b < ids.len() && a != b implies ids[a] != ids[b] by {
                if a == fs[k].chat_ids.len() {
                    assert(ids[b] == fs[k].chat_ids[b]);
                } else if b == fs[k].chat_ids.len() {
                    assert(ids[a] == fs[k].chat_ids[a]);
                } else {
                    assert(ids[a] == fs[k].chat_ids[a] && ids[b] == fs[k].chat_ids[b]);
                    assert(chat_ids_unique(fs[k]));
                }
            }
        }
    }
}

/// Law: detaching a chat from the folder it belongs to (or from any folder
/// when the chat points at none) preserves the bidirectional link invariant.
pub proof fn lemma_detach_preserves_links(
    fs: Seq<FolderMetaView>,
    cs: Seq<ChatMetaView>,
    folder_id: Seq<char>,
    chat_id: Seq<char>,
    now: Seq<char>,
)
    requires
        links_consistent(fs, cs),
        unique_chat_ids(cs),
        unique_folder_ids(fs),
        folder_pos(fs, folder_id) is Some,
        (match chat_pos(cs, chat_id) {
            Some(j) => cs[j].folder_id is None || cs[j].folder_id == Some(folder_id),
            None => true,
        }),
    ensures
        ({
            let r = spec_remove_chat_from_folder(fs, cs, folder_id, chat_id, now);
            &&& r is Ok
            &&& links_consistent(r->Ok_0.0, r->Ok_0.1)
        }),
{
    let k = folder_pos(fs, folder_id)->0;
    lemma_folder_pos_properties(fs, folder_id);
    lemma_chat_pos_properties(cs, chat_id);

    let r = spec_remove_chat_from_folder(fs, cs, folder_id, chat_id, now);
    let fs1 = r->Ok_0.0;
    let cs1 = r->Ok_0.1;
    let filtered = fs[k].chat_ids.filter(other_than(chat_id));
    assert(fs1 == fs.update(
        k,
        (FolderMetaView { chat_ids: filtered, last_updated_at: now, ..fs[k] }),
    ));

    // Forward direction: every id still listed has its chat pointing back.
    assert forall|i: int, t: int|
        0 <= i < fs1.len() && 0 <= t < fs1[i].chat_ids.len() implies ({
            let m = chat_pos(cs1, #[trigger] fs1[i].chat_ids[t]);
            &&& m is Some
            &&& cs1[m->0].folder_id == Some(fs1[i].id)
        }) by {
        let e = fs1[i].chat_ids[t];
        if i == k {
            assert(filtered.contains(e));
            fs[k].chat_ids.lemma_filter_contains_rev(other_than(chat_id), e);
            assert(e != chat_id);
            assert(fs[k].chat_ids.contains(e));
            let t0 = choose|t0: int|
                0 <= t0 < fs[k].chat_ids.len() && fs[k].chat_ids[t0] == e;
            assert(fs[k].chat_ids[t0] == e);
            let m0 = chat_pos(cs, e)->0;
            assert(chat_pos(cs, e) is Some && cs[m0].folder_id == Some(fs[k].id));
            match chat_pos(cs, chat_id) {
                Some(j) => {
                    assert(cs[j].id == chat_id && cs[m0].id == e) by {
                        lemma_chat_pos_properties(cs, e);
                    }
                    assert(m0 != j);
                    lemma_chat_pos_same_ids(cs, cs1, e);
                    assert(cs1[m0] == cs[m0]);
                },
                None => {
                    assert(cs1 == cs);
                },
            }
            assert(fs1[i].id == fs[i].id);
        } else {
            assert(fs1[i] == fs[i]);
            let m0 = chat_pos(cs, e)->0;
            assert(chat_pos(cs, e) is Some && cs[m0].folder_id == Some(fs[i].id));
            assert(cs[m0].id == e) by {
                lemma_chat_pos_properties(cs, e);
            }
            if e == chat_id {
                // The chat would point at this other folder, yet by the
                // precondition it points nowhere or at the detached folder,
                // whose position is k: both contradict i != k.
                assert(chat_pos(cs, chat_id) == Some(m0)) by {
                    lemma_chat_pos_properties(cs, chat_id);
                    if chat_pos(cs, chat_id) is None {
                    } else {
                        let j = chat_pos(cs, chat_id)->0;
                        if j != m0 {
                            assert(cs[j].id == chat_id);
                        }
                    }
                }
                assert(cs[m0].folder_id == Some(folder_id));
                assert(fs[i].id == folder_id);
                assert(fs[k].id == folder_id);
                assert(i == k);
            }
            match chat_pos(cs, chat_id) {
                Some(j) => {
                    assert(cs[j].id == chat_id);
                    assert(m0 != j);
                    lemma_chat_pos_same_ids(cs, cs1, e);
                    assert(cs1[m0] == cs[m0]);
                },
                None => {
                    assert(cs1 == cs);
                },
            }
        }
    }

    // Backward direction: every remaining chat pointer is still listed.
    assert forall|m: int|
        0 <= m < cs1.len() && (#[trigger] cs1[m].folder_id) is Some implies ({
            let kk = folder_pos(fs1, cs1[m].folder_id->0);
            &&& kk is Some
            &&& fs1[kk->0].chat_ids.contains(cs1[m].id)
        }) by {
        match chat_pos(cs, chat_id) {
            Some(j) => {
                assert(cs1[j].folder_id is None);
                assert(m != j);
                assert(cs1[m] == cs[m]);
                assert(cs[j].id == chat_id);
                assert(cs[m].id != chat_id);
            },
            None => {
                assert(cs1 == cs);
                assert(cs[m].id != chat_id);
            },
        }
        lemma_folder_pos_same_ids(fs, fs1, cs1[m].folder_id->0);
        let k0 = folder_pos(fs, cs[m].folder_id->0)->0;
        assert(folder_pos(fs, cs[m].folder_id->0) is Some && fs[k0].chat_ids.contains(
            cs[m].id,
        ));
        if k0 == k {
            let t0 = choose|t: int|
                0 <= t < fs[k].chat_ids.len() && fs[k].chat_ids[t] == cs[m].id;
            assert(other_than(chat_id)(fs[k].chat_ids[t0]));
            fs[k].chat_ids.lemma_filter_contains(other_than(chat_id), t0);
            assert(filtered.contains(cs[m].id));
            assert(fs1[k].chat_ids.contains(cs1[m].id));
        } else {
            assert(fs1[k0] == fs[k0]);
        }
    }
}

} // verus!
