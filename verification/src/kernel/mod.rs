//! The server side: reply encodings, dispatch decisions and the fixed
//! answers of the informational procedures.

pub mod fs_ops;
pub mod encode;
pub mod change_replies;
pub mod client;
pub mod mount_handlers;
pub mod nfs;
pub mod reply;
pub mod router;
pub mod rpcwire;

use vstd::prelude::*;

verus! {

/// Prepares the server's metrics; with metrics left out of the build there
/// is nothing to prepare.
pub fn init() {
}

} // verus!
