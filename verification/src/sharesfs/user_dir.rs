//! Creating the directory a user mounts: when nothing is to be done, which
//! file id it gets, and what is written for it.
//!
//! The store is asked whether the directory's metadata already exists and
//! whether the user's node set does; the directory's id comes from the
//! store's counter only when the node set already exists. From those
//! answers and the clock the writes are fixed here.

use vstd::prelude::*;
use crate::decimal::{decimal, decimal_spec};
use crate::settings::mount_score;
use crate::sharesfs::metadata::{new_node_fields, new_node_fields_spec, pair_views};
use crate::sharesfs::paths::{
    id_to_path_key, id_to_path_suffix, metadata_key, nodes_key, nodes_suffix, path_to_id_key,
    path_to_id_suffix, user_key_spec,
};
use crate::text::concat_str;

verus! {

/// The file id of a newly mounted directory: the store counter's next value
/// when the user's node set already exists, else 1.
pub open spec fn mount_fileid_spec(nodes_exist: bool, next: u64) -> u64 {
    if nodes_exist {
        next
    } else {
        1
    }
}

/// The file id of a newly mounted directory, given whether the user's node
/// set exists and, when it does, what incrementing the counter gave.
pub fn mount_fileid(nodes_exist: bool, next: u64) -> (id: u64)
    ensures
        id == mount_fileid_spec(nodes_exist, next),
{
    if nodes_exist {
        next
    } else {
        1
    }
}

/// The writes that create a mounted directory.
pub struct UserDirectoryPlan {
    /// Add `node` to the user's node set at this key with score `score`.
    pub nodes_key: String,
    pub node: String,
    pub score: u64,
    /// Write `fields` to the directory's metadata at this key.
    pub metadata_key: String,
    pub fields: Vec<(String, String)>,
    /// Map `node` to `fileid` in the path-to-id map at this key, and
    /// `fileid` to `node` in the id-to-path map.
    pub path_to_id_key: String,
    pub id_to_path_key: String,
    pub fileid: String,
}

/// Decides the creation of the directory `mount_path` of user `user_id`:
/// nothing when its metadata already exists; otherwise the node is added
/// with score 1 for the root and 2 for any other mount, its metadata is a
/// directory's (type 0, size 0, permissions 777) stamped at `secs`/`nsecs`
/// with file id `fileid`, and both id maps get the pair.
pub fn plan_user_directory(
    hash_tag: &str,
    user_id: &str,
    mount_path: &str,
    exists: bool,
    fileid: u64,
    secs: u64,
    nsecs: u32,
) -> (r: Option<UserDirectoryPlan>)
    ensures
        exists ==> r is None,
        !exists ==> (r matches Some(p) && {
            &&& p.nodes_key@ == user_key_spec(hash_tag@, user_id@, nodes_suffix())
            &&& p.node@ == mount_path@
            &&& p.score == (if mount_path@ == seq!['/'] {
                1u64
            } else {
                2u64
            })
            &&& p.metadata_key@ == hash_tag@ + mount_path@
            &&& pair_views(p.fields@) == new_node_fields_spec(
                "0"@,
                Some(777u64),
                fileid,
                secs,
                nsecs,
            )
            &&& p.path_to_id_key@ == user_key_spec(hash_tag@, user_id@, path_to_id_suffix())
            &&& p.id_to_path_key@ == user_key_spec(hash_tag@, user_id@, id_to_path_suffix())
            &&& p.fileid@ == decimal_spec(fileid as nat)
        }),
{
    if exists {
        return None;
    }
    proof {
        reveal_strlit("");
    }
    Some(
        UserDirectoryPlan {
            nodes_key: nodes_key(hash_tag, user_id),
            node: concat_str(mount_path, ""),
            score: mount_score(mount_path),
            metadata_key: metadata_key(hash_tag, mount_path),
            fields: new_node_fields("0", Some(777), fileid, secs, nsecs),
            path_to_id_key: path_to_id_key(hash_tag, user_id),
            id_to_path_key: id_to_path_key(hash_tag, user_id),
            fileid: decimal(fileid),
        },
    )
}

} // verus!
