//! Paths of the store's nodes, and the keys under which a user's nodes,
//! metadata and id maps are kept.

use vstd::prelude::*;
use crate::text::{
    chars_of, concat_str, contains_char_from, contains_str, count_char, count_char_in, find_from,
    lemma_count_char_concat, seq_starts_with, str_eq, string_from_utf8,
};

verus! {

/// The path of the root directory.
pub open spec fn root_path() -> Seq<char> {
    seq!['/']
}

/// `path` followed by a slash: the prefix shared by everything inside it.
pub open spec fn dir_prefix(path: Seq<char>) -> Seq<char> {
    path.push('/')
}

/// Whether `node` lies directly inside the directory `path`: for the root,
/// any path with a slash; otherwise a path that starts with `path/` and has
/// no further slash.
pub open spec fn is_direct_child_spec(node: Seq<char>, path: Seq<char>) -> bool {
    if path == root_path() {
        node.contains('/')
    } else {
        &&& dir_prefix(path).is_prefix_of(node)
        &&& !(exists|j: int| path.len() + 1 <= j < node.len() && node[j] == '/')
    }
}

/// Whether `node` lies directly inside the directory `path`.
pub fn is_direct_child(node: &str, path: &str) -> (b: bool)
    ensures
        b == is_direct_child_spec(node@, path@),
{
    let nv = chars_of(node);
    if str_eq(path, "/") {
        proof {
            reveal_strlit("/");
        }
        assert(path@ == root_path());
        let r = contains_char_from(&nv, '/', 0);
        proof {
            if r {
                let j = choose|j: int| 0 <= j < nv@.len() && nv@[j] == '/';
                assert(node@.contains('/'));
            }
            if node@.contains('/') {
                let j = choose|j: int| 0 <= j < node@.len() && node@[j] == '/';
                assert(0 <= j < nv@.len() && nv@[j] == '/');
            }
        }
        return r;
    }
    proof {
        reveal_strlit("/");
        assert("/"@ =~= root_path());
    }
    let prefix = concat_str(path, "/");
    let pv = chars_of(prefix.as_str());
    assert(pv@ =~= dir_prefix(path@));
    if !seq_starts_with(&nv, &pv) {
        return false;
    }
    let rest_has_slash = contains_char_from(&nv, '/', pv.len());
    !rest_has_slash
}

/// Where a path's last element starts: just after its last slash, or 0.
pub open spec fn last_slash_end(s: Seq<char>) -> int
    decreases s.len(),
{
    if s.len() == 0 {
        0
    } else if s.last() == '/' {
        s.len() as int
    } else {
        last_slash_end(s.drop_last())
    }
}

proof fn lemma_last_slash_end_at(s: Seq<char>, i: int)
    requires
        0 <= i <= s.len(),
        last_slash_end(s) == last_slash_end(s.subrange(0, i)),
        i == 0 || s[i - 1] == '/',
    ensures
        last_slash_end(s) == i,
{
    let t = s.subrange(0, i);
    if i > 0 {
        assert(t.last() == s[i - 1]);
    }
}

/// The last element of a slash-separated path: what follows its last
/// slash, or the whole path when it has none.
pub open spec fn last_path_element_spec(s: Seq<char>) -> Seq<char> {
    s.subrange(last_slash_end(s), s.len() as int)
}

/// The last element of a slash-separated path.
pub fn last_path_element(input: &str) -> (r: String)
    ensures
        r@ == last_path_element_spec(input@),
{
    let v = chars_of(input);
    let mut i = v.len();
    assert(v@.subrange(0, i as int) =~= v@);
    while i > 0 && v[i - 1] != '/'
        invariant
            i <= v.len(),
            v@ == input@,
            last_slash_end(v@) == last_slash_end(v@.subrange(0, i as int)),
        decreases i,
    {
        assert(v@.subrange(0, i as int).drop_last() =~= v@.subrange(0, i - 1));
        i -= 1;
    }
    proof {
        lemma_last_slash_end_at(v@, i as int);
    }
    input.substring_char(i, v.len()).to_owned()
}

/// The score under which the node at `path` is kept in the node set: one
/// more than its number of slashes.
pub open spec fn node_depth_spec(path: Seq<char>) -> int {
    count_char(path, '/') + 1int
}

/// The score under which the node at `path` is kept in the node set.
pub fn node_depth(path: &str) -> (d: u64)
    requires
        path@.len() < u64::MAX,
    ensures
        d == node_depth_spec(path@),
{
    let v = chars_of(path);
    let n = count_char_in(&v, '/');
    proof {
        lemma_count_char_le(path@, '/');
    }
    (n as u64) + 1
}

/// A sequence holds the character no more often than it is long.
pub proof fn lemma_count_char_le(s: Seq<char>, c: char)
    ensures
        count_char(s, c) <= s.len(),
    decreases s.len(),
{
    if s.len() > 0 {
        lemma_count_char_le(s.drop_last(), c);
    }
}

/// The score of the nodes that lie directly inside `subpath`: 2 for the
/// root, otherwise the number of `/`-separated pieces of `subpath` plus one.
pub open spec fn children_depth_spec(subpath: Seq<char>) -> int {
    if subpath == root_path() {
        2
    } else {
        count_char(subpath, '/') + 2int
    }
}

/// The score of the nodes that lie directly inside `subpath`.
pub fn children_depth(subpath: &str) -> (d: u64)
    requires
        subpath@.len() < u64::MAX - 1,
    ensures
        d == children_depth_spec(subpath@),
{
    proof {
        reveal_strlit("/");
    }
    assert("/"@ =~= root_path());
    if str_eq(subpath, "/") {
        return 2;
    }
    let v = chars_of(subpath);
    let n = count_char_in(&v, '/');
    proof {
        lemma_count_char_le(subpath@, '/');
    }
    (n as u64) + 2
}

/// The key of a user's store entry `suffix`: `hash_tag/user_id` followed by
/// the suffix.
pub open spec fn user_key_spec(hash_tag: Seq<char>, user_id: Seq<char>, suffix: Seq<char>) -> Seq<
    char,
> {
    hash_tag + seq!['/'] + user_id + suffix
}

fn user_key(hash_tag: &str, user_id: &str, suffix: &str) -> (k: String)
    ensures
        k@ == user_key_spec(hash_tag@, user_id@, suffix@),
{
    proof {
        reveal_strlit("/");
    }
    let a = concat_str(hash_tag, "/");
    let b = a.concat(user_id);
    let k = b.concat(suffix);
    assert(k@ =~= user_key_spec(hash_tag@, user_id@, suffix@));
    k
}

/// The suffix of the key of a user's node set.
pub open spec fn nodes_suffix() -> Seq<char> {
    seq!['_', 'n', 'o', 'd', 'e', 's']
}

/// The suffix of the key of a user's path-to-id map.
pub open spec fn path_to_id_suffix() -> Seq<char> {
    seq!['_', 'p', 'a', 't', 'h', '_', 't', 'o', '_', 'i', 'd']
}

/// The suffix of the key of a user's id-to-path map.
pub open spec fn id_to_path_suffix() -> Seq<char> {
    seq!['_', 'i', 'd', '_', 't', 'o', '_', 'p', 'a', 't', 'h']
}

/// The suffix of the key of a user's file id counter.
pub open spec fn next_fileid_suffix() -> Seq<char> {
    seq!['_', 'n', 'e', 'x', 't', '_', 'f', 'i', 'l', 'e', 'i', 'd']
}

/// The key of a user's node set, `hash_tag/user_id_nodes`.
pub fn nodes_key(hash_tag: &str, user_id: &str) -> (k: String)
    ensures
        k@ == user_key_spec(hash_tag@, user_id@, nodes_suffix()),
{
    proof {
        reveal_strlit("_nodes");
    }
    user_key(hash_tag, user_id, "_nodes")
}

/// The key of a user's path-to-id map, `hash_tag/user_id_path_to_id`.
pub fn path_to_id_key(hash_tag: &str, user_id: &str) -> (k: String)
    ensures
        k@ == user_key_spec(hash_tag@, user_id@, path_to_id_suffix()),
{
    proof {
        reveal_strlit("_path_to_id");
    }
    user_key(hash_tag, user_id, "_path_to_id")
}

/// The key of a user's id-to-path map, `hash_tag/user_id_id_to_path`.
pub fn id_to_path_key(hash_tag: &str, user_id: &str) -> (k: String)
    ensures
        k@ == user_key_spec(hash_tag@, user_id@, id_to_path_suffix()),
{
    proof {
        reveal_strlit("_id_to_path");
    }
    user_key(hash_tag, user_id, "_id_to_path")
}

/// The key of a user's file id counter, `hash_tag/user_id_next_fileid`.
pub fn next_fileid_key(hash_tag: &str, user_id: &str) -> (k: String)
    ensures
        k@ == user_key_spec(hash_tag@, user_id@, next_fileid_suffix()),
{
    proof {
        reveal_strlit("_next_fileid");
    }
    user_key(hash_tag, user_id, "_next_fileid")
}

/// The key of the metadata of the node at `path`: the hash tag followed by
/// the path.
pub fn metadata_key(hash_tag: &str, path: &str) -> (k: String)
    ensures
        k@ == hash_tag@ + path@,
{
    concat_str(hash_tag, path)
}

/// The path of `name` inside the directory `parent`.
pub open spec fn child_path_spec(parent: Seq<char>, name: Seq<char>) -> Seq<char> {
    if parent == root_path() {
        seq!['/'] + name
    } else {
        parent + seq!['/'] + name
    }
}

/// The path of `name` inside the directory `parent`.
pub fn child_path(parent: &str, name: &str) -> (p: String)
    ensures
        p@ == child_path_spec(parent@, name@),
{
    proof {
        reveal_strlit("/");
        assert("/"@ =~= root_path());
    }
    if str_eq(parent, "/") {
        let p = concat_str("/", name);
        assert(p@ =~= child_path_spec(parent@, name@));
        p
    } else {
        let a = concat_str(parent, "/");
        let p = a.concat(name);
        assert(p@ =~= child_path_spec(parent@, name@));
        p
    }
}

/// The path a lookup of `name` in directory `dirid` (whose path is
/// `parent`) looks for: directly under the root for directory 0, otherwise
/// `parent/name`.
pub open spec fn lookup_path_spec(dirid: u64, parent: Seq<char>, name: Seq<char>) -> Seq<char> {
    if dirid == 0 {
        seq!['/'] + name
    } else {
        parent + seq!['/'] + name
    }
}

/// The path a lookup of `name` in directory `dirid` looks for.
pub fn lookup_path(dirid: u64, parent: &str, name: &str) -> (p: String)
    ensures
        p@ == lookup_path_spec(dirid, parent@, name@),
{
    proof {
        reveal_strlit("/");
    }
    if dirid == 0 {
        let p = concat_str("/", name);
        assert(p@ =~= lookup_path_spec(dirid, parent@, name@));
        p
    } else {
        let a = concat_str(parent, "/");
        let p = a.concat(name);
        assert(p@ =~= lookup_path_spec(dirid, parent@, name@));
        p
    }
}

/// A file name from the bytes a client sent: the text they encode, when
/// they are UTF-8.
pub fn file_name(bytes: &[u8]) -> (r: Option<String>)
    ensures
        r is Some <==> vstd::utf8::valid_utf8(bytes@),
        r matches Some(s) ==> s@ == vstd::utf8::decode_utf8(bytes@),
{
    let mut v: Vec<u8> = Vec::new();
    crate::xdr::push_bytes(&mut v, bytes);
    match string_from_utf8(v) {
        Ok(s) => Some(s),
        Err(_) => None,
    }
}

/// Whether `t` is a node type the store knows: directory, file or link.
pub open spec fn known_node_type_spec(t: Seq<char>) -> bool {
    t == seq!['0'] || t == seq!['1'] || t == seq!['2']
}

/// Whether `t` is a node type the store knows; removing or renaming a node
/// of any other type is an I/O error.
pub fn known_node_type(t: &str) -> (b: bool)
    ensures
        b == known_node_type_spec(t@),
{
    proof {
        reveal_strlit("0");
        reveal_strlit("1");
        reveal_strlit("2");
        assert("0"@ =~= seq!['0']);
        assert("1"@ =~= seq!['1']);
        assert("2"@ =~= seq!['2']);
    }
    str_eq(t, "0") || str_eq(t, "1") || str_eq(t, "2")
}

/// A name for a directory's child holds no slash.
pub open spec fn plain_name(name: Seq<char>) -> bool {
    !name.contains('/')
}

/// A child's path lies directly inside its directory.
pub proof fn lemma_child_is_direct_child(parent: Seq<char>, name: Seq<char>)
    requires
        plain_name(name),
    ensures
        is_direct_child_spec(child_path_spec(parent, name), parent),
{
    let c = child_path_spec(parent, name);
    if parent == root_path() {
        assert(c[0] == '/');
    } else {
        assert(c.subrange(0, parent.len() + 1int) =~= dir_prefix(parent));
        assert forall|j: int| parent.len() + 1 <= j < c.len() implies c[j] != '/' by {
            assert(c[j] == name[j - parent.len() - 1]);
        }
    }
}

/// The last element of a child's path is the child's name.
pub proof fn lemma_child_last_element(parent: Seq<char>, name: Seq<char>)
    requires
        plain_name(name),
    ensures
        last_path_element_spec(child_path_spec(parent, name)) == name,
{
    let c = child_path_spec(parent, name);
    let k = c.len() - name.len();
    assert(c[k - 1] == '/');
    assert forall|j: int| k <= j < c.len() implies c[j] != '/' by {
        assert(c[j] == name[j - k]);
    }
    lemma_last_slash_end_is(c, k);
    assert(c.subrange(k, c.len() as int) =~= name);
}

proof fn lemma_last_slash_end_is(s: Seq<char>, k: int)
    requires
        0 < k <= s.len(),
        s[k - 1] == '/',
        forall|j: int| k <= j < s.len() ==> s[j] != '/',
    ensures
        last_slash_end(s) == k,
    decreases s.len(),
{
    if s.len() > k {
        let t = s.drop_last();
        assert forall|j: int| k <= j < t.len() implies t[j] != '/' by {
            assert(t[j] == s[j]);
        }
        lemma_last_slash_end_is(t, k);
    }
}

/// A node created inside a directory gets the score under which that
/// directory's children are listed.
pub proof fn lemma_child_depth(parent: Seq<char>, name: Seq<char>)
    requires
        plain_name(name),
    ensures
        node_depth_spec(child_path_spec(parent, name)) == children_depth_spec(parent),
{
    lemma_no_slash_count(name);
    lemma_count_char_concat(seq!['/'], name, '/');
    assert(count_char(seq!['/'], '/') == 1) by {
        assert(seq!['/'].drop_last() =~= Seq::<char>::empty());
        assert(count_char(Seq::<char>::empty(), '/') == 0);
        assert(seq!['/'].last() == '/');
    }
    if parent != root_path() {
        lemma_count_char_concat(parent, seq!['/'], '/');
        lemma_count_char_concat(parent + seq!['/'], name, '/');
    }
}

proof fn lemma_no_slash_count(name: Seq<char>)
    requires
        plain_name(name),
    ensures
        count_char(name, '/') == 0,
    decreases name.len(),
{
    if name.len() > 0 {
        assert(!name.drop_last().contains('/')) by {
            if name.drop_last().contains('/') {
                let j = choose|j: int| 0 <= j < name.drop_last().len() && name.drop_last()[j] == '/';
                assert(name[j] == '/');
            }
        }
        assert(name.last() == name[name.len() - 1]);
        lemma_no_slash_count(name.drop_last());
    }
}

/// Whether `path` lies in a pack file git is still writing, whose contents
/// are held in memory rather than in the store.
pub open spec fn is_pack_temp_spec(path: Seq<char>) -> bool {
    find_from(path, ".git/objects/pack/tmp_pack"@, 0) >= 0
}

/// Whether `path` lies in a pack file git is still writing.
pub fn is_pack_temp(path: &str) -> (b: bool)
    ensures
        b == is_pack_temp_spec(path@),
{
    contains_str(path, ".git/objects/pack/tmp_pack")
}

} // verus!
