//! A provenance-tracking NFS filesystem: the wire formats of its ONC RPC
//! client calls and replies, the request-dispatch decisions of its server,
//! and the byte-level logic of its share-backed file store.

pub mod xdr;
pub mod rpc;
pub mod text;
pub mod decimal;
pub mod kernel;
pub mod sharesfs;
pub mod channel_buffer;
pub mod store;
pub mod audit;
pub mod secret_sharing;
pub mod display;
pub mod settings;
pub mod data_room;
pub mod db_explorer;
