//! Removing a directory: when it is refused, and which entries go.
//!
//! The store is asked first whether any node lies under the directory and
//! then for the directory's file id; from those two answers the removal
//! is refused or its four deletions are fixed. The store ignores a failure
//! of any of the deletions.

use vstd::prelude::*;
use crate::kernel::nfs::nfsstat3;
use crate::sharesfs::paths::{
    id_to_path_key, id_to_path_suffix, metadata_key, nodes_key, nodes_suffix, path_to_id_key,
    path_to_id_suffix, user_key_spec,
};
use crate::text::concat_str;

verus! {

/// The pattern of the node-set members under `path`: `path/*`.
pub open spec fn children_pattern_spec(path: Seq<char>) -> Seq<char> {
    path + seq!['/', '*']
}

/// The pattern of the node-set members under `path`.
pub fn children_pattern(path: &str) -> (p: String)
    ensures
        p@ == children_pattern_spec(path@),
{
    proof {
        reveal_strlit("/*");
    }
    concat_str(path, "/*")
}

/// The deletions that remove a directory.
pub struct DirectoryRemoval {
    /// Remove `node` from the user's node set at this key.
    pub nodes_key: String,
    pub node: String,
    /// Delete the directory's metadata at this key.
    pub metadata_key: String,
    /// Remove the field `node` from the path-to-id map at this key.
    pub path_to_id_key: String,
    /// Remove the field `dir_id` from the id-to-path map at this key.
    pub id_to_path_key: String,
    pub dir_id: String,
}

/// Decides the removal of the directory at `path` of user `user_id`, given
/// whether any node lies under it and the file id the path-to-id map gave
/// for it (`None` when that read failed). A directory with something under
/// it is not empty; one whose id cannot be read is an I/O error.
pub fn plan_directory_removal(
    hash_tag: &str,
    user_id: &str,
    path: &str,
    has_children: bool,
    dir_id: Option<String>,
) -> (r: Result<DirectoryRemoval, nfsstat3>)
    ensures
        has_children ==> r == Err::<DirectoryRemoval, nfsstat3>(nfsstat3::NFS3ERR_NOTEMPTY),
        !has_children && dir_id is None ==> r == Err::<DirectoryRemoval, nfsstat3>(
            nfsstat3::NFS3ERR_IO,
        ),
        !has_children && dir_id is Some ==> (r matches Ok(d) && {
            &&& d.nodes_key@ == user_key_spec(hash_tag@, user_id@, nodes_suffix())
            &&& d.node@ == path@
            &&& d.metadata_key@ == hash_tag@ + path@
            &&& d.path_to_id_key@ == user_key_spec(hash_tag@, user_id@, path_to_id_suffix())
            &&& d.id_to_path_key@ == user_key_spec(hash_tag@, user_id@, id_to_path_suffix())
            &&& d.dir_id == dir_id.unwrap()
        }),
{
    proof {
        reveal_strlit("");
    }
    if has_children {
        return Err(nfsstat3::NFS3ERR_NOTEMPTY);
    }
    match dir_id {
        None => Err(nfsstat3::NFS3ERR_IO),
        Some(id) => Ok(
            DirectoryRemoval {
                nodes_key: nodes_key(hash_tag, user_id),
                node: concat_str(path, ""),
                metadata_key: metadata_key(hash_tag, path),
                path_to_id_key: path_to_id_key(hash_tag, user_id),
                id_to_path_key: id_to_path_key(hash_tag, user_id),
                dir_id: id,
            },
        ),
    }
}

} // verus!
