# graymamba

The verified core of a provenance-tracking NFS file store: files are kept
as secret shares in a key-value store, and the splits and rejoins of a
file's shares are events for a Merkle-sealed audit trail.

Everything under `src/` is checked by Verus against its contracts:

- `xdr`, `rpc`, `kernel`: ONC RPC and NFSv3 wire formats (client calls and
  reply parsers, server replies, record marking), and the server's dispatch
  decisions.
- `sharesfs`, `store`, `channel_buffer`: how paths name nodes and store
  keys, what a rename, a removal or a SETATTR writes, file contents and the
  buffering of writes.
- `secret_sharing`: cutting a document into chunks, splitting each into
  Shamir shares and joining them back.
- `audit`: audit events and their dispatch, the Poseidon hash over BN254,
  the Merkle tree that seals a window of events, and what the audit viewer
  lists.
- `data_room`, `db_explorer`, `display`, `settings`: the decisions of the
  client programs, as state machines that ask the caller for the outside
  work (network, store reads) and take its outcome back.

`app/` is the ordinary Rust around the library: a command-line NFS client
and the carrying out of store writes against an asynchronous key-value
store. `tests/` exercises the library on concrete values.
