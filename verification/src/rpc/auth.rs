//! AUTH_UNIX credentials as the client sends them.

use vstd::prelude::*;
use crate::xdr::{be32, be32_seq, push_u32, push_u32_slice};

verus! {

/// The AUTH_UNIX flavor number.
pub const AUTH_UNIX: u32 = 1;

/// The AUTH_NULL flavor number.
pub const AUTH_NULL: u32 = 0;

/// The user id the client presents by default.
pub const DEFAULT_UID: u32 = 501;

/// The group id the client presents by default.
pub const DEFAULT_GID: u32 = 20;

/// The auxiliary group ids the client presents by default.
pub open spec fn default_aux_gids_spec() -> Seq<u32> {
    seq![12u32, 20, 61, 79, 80, 81, 98, 102, 701, 33, 100, 204, 250, 395, 398, 101]
}

/// The auxiliary group ids the client presents by default.
pub fn default_aux_gids() -> (v: Vec<u32>)
    ensures
        v@ == default_aux_gids_spec(),
{
    let mut v: Vec<u32> = Vec::new();
    v.push(12);
    v.push(20);
    v.push(61);
    v.push(79);
    v.push(80);
    v.push(81);
    v.push(98);
    v.push(102);
    v.push(701);
    v.push(33);
    v.push(100);
    v.push(204);
    v.push(250);
    v.push(395);
    v.push(398);
    v.push(101);
    assert(v@ =~= default_aux_gids_spec());
    v
}

/// An AUTH_UNIX credential.
#[derive(Debug)]
pub struct AuthUnix {
    pub stamp: u32,
    pub machine_name: String,
    pub uid: u32,
    pub gid: u32,
    pub aux_gids: Vec<u32>,
}

/// The length word of an AUTH_UNIX credential with `n` auxiliary groups:
/// the bytes of its body (stamp, empty machine name, uid, gid, group count,
/// and four bytes a group), as a 32-bit word.
pub open spec fn credential_len(n: nat) -> u32 {
    ((20 + 4 * n) % 0x1_0000_0000) as u32
}

/// The bytes of an AUTH_UNIX credential followed by an AUTH_NULL verifier.
/// The credential's length word counts the bytes of its body, and the
/// machine name is always sent empty.
pub open spec fn auth_unix_bytes(stamp: u32, uid: u32, gid: u32, aux_gids: Seq<u32>) -> Seq<u8> {
    be32(AUTH_UNIX) + be32(credential_len(aux_gids.len())) + be32(stamp) + be32(0) + be32(uid) + be32(gid) + be32(
        aux_gids.len() as u32,
    ) + be32_seq(aux_gids) + be32(AUTH_NULL) + be32(0)
}

impl Default for AuthUnix {
    fn default() -> (a: Self)
        ensures
            a.stamp == 0,
            a.machine_name@ == Seq::<char>::empty(),
            a.uid == DEFAULT_UID,
            a.gid == DEFAULT_GID,
            a.aux_gids@ == default_aux_gids_spec(),
    {
        AuthUnix {
            stamp: 0,
            machine_name: String::new(),
            uid: DEFAULT_UID,
            gid: DEFAULT_GID,
            aux_gids: default_aux_gids(),
        }
    }
}

impl AuthUnix {
    /// Appends this credential and an AUTH_NULL verifier to `call`.
    pub fn write_to_vec(&self, call: &mut Vec<u8>)
        ensures
            final(call)@ == old(call)@ + auth_unix_bytes(
                self.stamp,
                self.uid,
                self.gid,
                self.aux_gids@,
            ),
    {
        let n = self.aux_gids.len() as u64;
        let len_word = ((20u64 + 4u64 * (n % 0x4000_0000)) % 0x1_0000_0000) as u32;
        assert(len_word == credential_len(self.aux_gids@.len())) by (nonlinear_arith)
            requires
                n == self.aux_gids@.len(),
                len_word == (20 + 4 * (n % 0x4000_0000)) % 0x1_0000_0000,
        {
            let q = n / 0x4000_0000;
            let r = n % 0x4000_0000;
            assert(n == q * 0x4000_0000 + r);
            assert(20 + 4 * n == q * 0x1_0000_0000 + (20 + 4 * r));
        }
        push_u32(call, AUTH_UNIX);
        push_u32(call, len_word);
        push_u32(call, self.stamp);
        push_u32(call, 0);
        push_u32(call, self.uid);
        push_u32(call, self.gid);
        push_u32(call, self.aux_gids.len() as u32);
        push_u32_slice(call, self.aux_gids.as_slice());
        push_u32(call, AUTH_NULL);
        push_u32(call, 0);
        assert(call@ =~= old(call)@ + auth_unix_bytes(
            self.stamp,
            self.uid,
            self.gid,
            self.aux_gids@,
        ));
    }
}

/// The bytes of the default credential, followed by an AUTH_NULL verifier.
pub open spec fn default_auth_bytes() -> Seq<u8> {
    auth_unix_bytes(0, DEFAULT_UID, DEFAULT_GID, default_aux_gids_spec())
}

} // verus!
