//! Where each index document lives: the file names under the data directory
//! that the caller reads and writes, and the location recorded inside each
//! chat's metadata.

use vstd::prelude::*;
use vstd::string::StringExecFns;

verus! {

/// The file holding the chats index.
pub fn get_index_path() -> (r: String)
    ensures
        r@ == "chats_index.json"@,
{
    "chats_index.json".to_owned()
}

/// The file holding the folders index.
pub fn get_folders_index_path() -> (r: String)
    ensures
        r@ == "folders.json"@,
{
    "folders.json".to_owned()
}

/// The file holding the workspaces index.
pub fn get_workspaces_index_path() -> (r: String)
    ensures
        r@ == "workspaces.json"@,
{
    "workspaces.json".to_owned()
}

/// The file holding one chat's message log, relative to the data directory.
pub fn get_chat_file_path(chat_id: &str) -> (r: String)
    ensures
        r@ == "chats/"@ + chat_id@ + ".json"@,
{
    let mut r = String::new();
    r.append("chats/");
    r.append(chat_id);
    r.append(".json");
    proof {
        assert(r@ =~= "chats/"@ + chat_id@ + ".json"@);
    }
    r
}

} // verus!
