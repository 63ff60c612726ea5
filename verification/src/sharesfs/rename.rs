//! Moving a file or directory: which store keys are renamed, and which
//! node-set and id-map entries are replaced, when `from` becomes `to`.
//!
//! The move is carried out against the store in four steps, each of which
//! reads what the store holds and then writes: the node's metadata key is
//! renamed, then every key under it, then the node set, then the two id
//! maps. The functions here decide each step's writes from what was read;
//! `lemma_move_keeps_id_maps_inverse` shows that the id-map writes keep the
//! path-to-id and id-to-path maps inverse to each other.

use vstd::prelude::*;
use crate::kernel::nfs::nfsstat3;
use crate::sharesfs::paths::{dir_prefix, metadata_key};
use crate::text::{
    chars_of, concat_str, count_char, count_char_in, replace_first, str_eq, str_starts_with,
};

verus! {

/// Name for what the regex crate gives back when the literal `pat` (escaped
/// with `regex::escape`, compiled with `Regex::new`) has its leftmost match
/// in `hay` replaced by `rep`, where `$` references in `rep` are expanded;
/// `None` when `Regex::new` refuses the escaped pattern.
pub uninterp spec fn literal_regex_replace(hay: Seq<char>, pat: Seq<char>, rep: Seq<char>) -> Option<
    Seq<char>,
>;

/// Calls `regex::escape`, `Regex::new` and `Regex::replace`. Trusted: the
/// escaped literal matches exactly the occurrences of `pat`, so the leftmost
/// match is the first occurrence; `replace` gives the haystack back when
/// nothing matches, and inserts `rep` literally when `rep` holds no `$`
/// (regex's `no_expansion`). When `rep` holds a `$`, the expansion of
/// capture-group references is left to the name. `Regex::new` refuses
/// patterns whose compiled program exceeds its 10 MiB size limit, and
/// nothing else that an escaped literal can be; an escaped literal of at
/// most 4096 characters stays far below that limit. Which longer literals
/// it refuses is left to the name.
#[verifier::external_body]
fn regex_replace_literal(hay: &str, pat: &str, rep: &str) -> (r: Option<String>)
    ensures
        match r {
            Some(s) => literal_regex_replace(hay@, pat@, rep@) == Some(s@),
            None => literal_regex_replace(hay@, pat@, rep@) is None,
        },
        pat@.len() <= 4096 ==> r is Some,
        !rep@.contains('$') ==> (r matches Some(s) ==> s@ == replace_first(hay@, pat@, rep@)),
{
    match regex::Regex::new(&regex::escape(pat)) {
        Ok(re) => Some(re.replace(hay, rep).into_owned()),
        Err(_) => None,
    }
}

/// Where the rename of `from` to `to` puts the path `p`.
pub open spec fn renamed(p: Seq<char>, from: Seq<char>, to: Seq<char>) -> Seq<char> {
    literal_regex_replace(p, from, to).unwrap()
}

/// Whether the regex crate accepts `from` as the pattern for the rename of
/// the path `p`.
pub open spec fn renamable(p: Seq<char>, from: Seq<char>, to: Seq<char>) -> bool {
    literal_regex_replace(p, from, to) is Some
}

/// `p` with its leading `from` swapped for `to`.
pub open spec fn moved_path(p: Seq<char>, from: Seq<char>, to: Seq<char>) -> Seq<char> {
    to + p.subrange(from.len() as int, p.len() as int)
}

/// Whether `p` lies strictly inside the directory `from`.
pub open spec fn is_inside(p: Seq<char>, from: Seq<char>) -> bool {
    dir_prefix(from).is_prefix_of(p)
}

/// One write to the store.
#[derive(Debug, Clone, PartialEq, Eq)]
pub enum StoreOp {
    /// Rename a key; a failure is ignored.
    Rename { from: String, to: String },
    /// Remove a member from a sorted set; a failure ends the move.
    ZRem { key: String, member: String },
    /// Add a member to a sorted set with score `slashes + 1`; a failure
    /// ends the move.
    ZAdd { key: String, member: String, slashes: usize },
    /// Remove a field from a hash; a failure ends the move.
    HDel { key: String, field: String },
    /// Set a field of a hash; a failure ends the move.
    HSet { key: String, field: String, value: String },
    /// Stamp the metadata at `key` with the current time and `fileid`; a
    /// failure is ignored.
    Touch { key: String, fileid: String },
}

/// A store write, over the characters of its strings.
pub enum OpModel {
    Rename(Seq<char>, Seq<char>),
    ZRem(Seq<char>, Seq<char>),
    ZAdd(Seq<char>, Seq<char>, int),
    HDel(Seq<char>, Seq<char>),
    HSet(Seq<char>, Seq<char>, Seq<char>),
    Touch(Seq<char>, Seq<char>),
}

impl View for StoreOp {
    type V = OpModel;

    open spec fn view(&self) -> OpModel {
        match self {
            StoreOp::Rename { from, to } => OpModel::Rename(from@, to@),
            StoreOp::ZRem { key, member } => OpModel::ZRem(key@, member@),
            StoreOp::ZAdd { key, member, slashes } => OpModel::ZAdd(key@, member@, *slashes as int),
            StoreOp::HDel { key, field } => OpModel::HDel(key@, field@),
            StoreOp::HSet { key, field, value } => OpModel::HSet(key@, field@, value@),
            StoreOp::Touch { key, fileid } => OpModel::Touch(key@, fileid@),
        }
    }
}

impl StoreOp {
    /// Whether a failure of this write ends the move with an I/O error.
    pub fn must_succeed(&self) -> (b: bool)
        ensures
            b == !(self@ is Rename || self@ is Touch),
    {
        match self {
            StoreOp::Rename { .. } => false,
            StoreOp::Touch { .. } => false,
            _ => true,
        }
    }
}

/// What the move does once `op` has been tried: it goes on when the write
/// succeeded or when a failure of it is ignored, and otherwise it ends
/// there with an I/O error, leaving the later writes undone.
pub fn write_outcome(op: &StoreOp, succeeded: bool) -> (r: Result<(), nfsstat3>)
    ensures
        r == if succeeded || op@ is Rename || op@ is Touch {
            Ok::<(), nfsstat3>(())
        } else {
            Err(nfsstat3::NFS3ERR_IO)
        },
{
    if succeeded || !op.must_succeed() {
        Ok(())
    } else {
        Err(nfsstat3::NFS3ERR_IO)
    }
}

/// The models of a list of writes.
pub open spec fn models(ops: Seq<StoreOp>) -> Seq<OpModel> {
    ops.map_values(|o: StoreOp| o@)
}

fn push_op(ops: &mut Vec<StoreOp>, op: StoreOp)
    ensures
        models(final(ops)@) == models(old(ops)@).push(op@),
{
    ops.push(op);
    assert(models(ops@) =~= models(old(ops)@).push(op@));
}

/// The renames of the metadata key of the moved node itself: from
/// `hash_tag` + `from` to `hash_tag` + `to`.
pub fn metadata_rename(hash_tag: &str, from: &str, to: &str) -> (op: StoreOp)
    ensures
        op@ == OpModel::Rename(hash_tag@ + from@, hash_tag@ + to@),
{
    StoreOp::Rename { from: metadata_key(hash_tag, from), to: metadata_key(hash_tag, to) }
}

/// The pattern that lists the keys under the moved node: `hash_tag` +
/// `from` + `/*`.
pub fn descendant_keys_pattern(hash_tag: &str, from: &str) -> (p: String)
    ensures
        p@ == hash_tag@ + from@ + seq!['/', '*'],
{
    proof {
        reveal_strlit("/*");
    }
    let k = concat_str(hash_tag, from);
    let p = k.concat("/*");
    assert(p@ =~= hash_tag@ + from@ + seq!['/', '*']);
    p
}

/// The renames of the listed keys, in order.
pub open spec fn key_rename_models(keys: Seq<Seq<char>>, from: Seq<char>, to: Seq<char>) -> Seq<
    OpModel,
>
    decreases keys.len(),
{
    if keys.len() == 0 {
        seq![]
    } else {
        key_rename_models(keys.drop_last(), from, to).push(
            OpModel::Rename(keys.last(), renamed(keys.last(), from, to)),
        )
    }
}

/// The characters of each string.
pub open spec fn strings(v: Seq<String>) -> Seq<Seq<char>> {
    v.map_values(|s: String| s@)
}

/// Renames each listed key `k` to where the move puts it; `None` when the
/// regex crate refuses `from` as a pattern (where the store would panic),
/// which it never does for a path of at most 4096 characters.
pub fn key_renames(keys: &Vec<String>, from: &str, to: &str) -> (r: Option<Vec<StoreOp>>)
    ensures
        r is None <==> exists|i: int|
            0 <= i < keys.len() && !renamable(#[trigger] keys@[i]@, from@, to@),
        from@.len() <= 4096 ==> r is Some,
        r matches Some(ops) ==> models(ops@) == key_rename_models(strings(keys@), from@, to@),
        !to@.contains('$') && r is Some ==> forall|i: int|
            0 <= i < keys.len() && #[trigger] is_inside(keys@[i]@, from@) ==> renamed(
                keys@[i]@,
                from@,
                to@,
            ) == moved_path(keys@[i]@, from@, to@),
{
    let mut ops: Vec<StoreOp> = Vec::new();
    let mut i: usize = 0;
    while i < keys.len()
        invariant
            i <= keys.len(),
            forall|j: int| 0 <= j < i ==> renamable(#[trigger] keys@[j]@, from@, to@),
            models(ops@) == key_rename_models(strings(keys@).subrange(0, i as int), from@, to@),
            !to@.contains('$') ==> forall|j: int|
                0 <= j < i && #[trigger] is_inside(keys@[j]@, from@) ==> renamed(
                    keys@[j]@,
                    from@,
                    to@,
                ) == moved_path(keys@[j]@, from@, to@),
        decreases keys.len() - i,
    {
        let k = &keys[i];
        let new_key = match regex_replace_literal(k.as_str(), from, to) {
            Some(n) => n,
            None => {
                return None;
            },
        };
        proof {
            lemma_inside_renamed(k@, from@, to@, new_key@);
            assert(strings(keys@).subrange(0, i + 1).drop_last() =~= strings(keys@).subrange(
                0,
                i as int,
            ));
        }
        push_op(&mut ops, StoreOp::Rename { from: k.clone(), to: new_key });
        i += 1;
    }
    assert(strings(keys@).subrange(0, keys.len() as int) =~= strings(keys@));
    Some(ops)
}

/// The node-set writes for one member `m` of the set at `key`: the moved
/// node itself is re-added under `to`; a node inside it is re-added where
/// the move puts it, unless that is where it already is; any other node is
/// left alone.
pub open spec fn node_member_models(key: Seq<char>, from: Seq<char>, to: Seq<char>, m: Seq<char>) -> Seq<
    OpModel,
> {
    if m == from {
        seq![OpModel::ZRem(key, m), OpModel::ZAdd(key, to, count_char(to, '/') as int)]
    } else if is_inside(m, from) && renamed(m, from, to) != m {
        let n = renamed(m, from, to);
        seq![OpModel::ZRem(key, m), OpModel::ZAdd(key, n, count_char(n, '/') as int)]
    } else {
        seq![]
    }
}

/// The node-set writes for the listed members, in order.
pub open spec fn node_models(key: Seq<char>, from: Seq<char>, to: Seq<char>, ms: Seq<Seq<char>>) -> Seq<
    OpModel,
>
    decreases ms.len(),
{
    if ms.len() == 0 {
        seq![]
    } else {
        node_models(key, from, to, ms.drop_last()) + node_member_models(key, from, to, ms.last())
    }
}

fn slashes(s: &str) -> (n: usize)
    ensures
        n == count_char(s@, '/'),
{
    let v = chars_of(s);
    count_char_in(&v, '/')
}

/// The writes that move the members of the node set at `key`; `None` when
/// the regex crate refuses `from` as a pattern (where the store would
/// panic), which it never does for a path of at most 4096 characters.
pub fn node_updates(key: &str, members: &Vec<String>, from: &str, to: &str) -> (r: Option<
    Vec<StoreOp>,
>)
    ensures
        r is None <==> exists|i: int|
            0 <= i < members.len() && !renamable(#[trigger] members@[i]@, from@, to@),
        from@.len() <= 4096 ==> r is Some,
        r matches Some(ops) ==> models(ops@) == node_models(key@, from@, to@, strings(members@)),
        !to@.contains('$') && r is Some ==> forall|i: int|
            0 <= i < members.len() && #[trigger] is_inside(members@[i]@, from@) ==> renamed(
                members@[i]@,
                from@,
                to@,
            ) == moved_path(members@[i]@, from@, to@),
{
    let mut ops: Vec<StoreOp> = Vec::new();
    let dir = concat_str(from, "/");
    proof {
        reveal_strlit("/");
        assert(dir@ =~= dir_prefix(from@));
    }
    let mut i: usize = 0;
    while i < members.len()
        invariant
            i <= members.len(),
            forall|j: int| 0 <= j < i ==> renamable(#[trigger] members@[j]@, from@, to@),
            dir@ == dir_prefix(from@),
            models(ops@) == node_models(key@, from@, to@, strings(members@).subrange(0, i as int)),
            !to@.contains('$') ==> forall|j: int|
                0 <= j < i && #[trigger] is_inside(members@[j]@, from@) ==> renamed(
                    members@[j]@,
                    from@,
                    to@,
                ) == moved_path(members@[j]@, from@, to@),
        decreases members.len() - i,
    {
        let m = &members[i];
        let ghost before = models(ops@);
        let n = match regex_replace_literal(m.as_str(), from, to) {
            Some(n) => n,
            None => {
                return None;
            },
        };
        proof {
            lemma_inside_renamed(m@, from@, to@, n@);
            assert(strings(members@).subrange(0, i + 1).drop_last() =~= strings(members@).subrange(
                0,
                i as int,
            ));
        }
        if str_eq(m.as_str(), from) {
            push_op(&mut ops, StoreOp::ZRem { key: key.to_owned(), member: m.clone() });
            push_op(
                &mut ops,
                StoreOp::ZAdd { key: key.to_owned(), member: to.to_owned(), slashes: slashes(to) },
            );
        } else if str_starts_with(m.as_str(), dir.as_str()) && !str_eq(n.as_str(), m.as_str()) {
            let d = slashes(n.as_str());
            push_op(&mut ops, StoreOp::ZRem { key: key.to_owned(), member: m.clone() });
            push_op(&mut ops, StoreOp::ZAdd { key: key.to_owned(), member: n, slashes: d });
        }
        assert(models(ops@) =~= before + node_member_models(key@, from@, to@, m@));
        i += 1;
    }
    assert(strings(members@).subrange(0, members.len() as int) =~= strings(members@));
    Some(ops)
}

/// The writes that move one path `old` to `new` in the two id maps, then
/// stamp the node's metadata.
pub open spec fn move_models(
    hash_tag: Seq<char>,
    p2i: Seq<char>,
    i2p: Seq<char>,
    old: Seq<char>,
    new: Seq<char>,
    id: Seq<char>,
) -> Seq<OpModel> {
    seq![
        OpModel::HDel(p2i, old),
        OpModel::HSet(p2i, new, id),
        OpModel::HDel(i2p, id),
        OpModel::HSet(i2p, id, new),
        OpModel::Touch(hash_tag + new, id),
    ]
}

/// The id-map writes for one entry `(p, id)` of the path-to-id map: an
/// entry already at `to` loses its reverse entry; the moved node and the
/// nodes inside it are moved as `move_models` says.
pub open spec fn field_models(
    hash_tag: Seq<char>,
    p2i: Seq<char>,
    i2p: Seq<char>,
    from: Seq<char>,
    to: Seq<char>,
    p: Seq<char>,
    id: Seq<char>,
) -> Seq<OpModel> {
    let clear = if p == to {
        seq![OpModel::HDel(i2p, id)]
    } else {
        seq![]
    };
    let moved = if p == from {
        move_models(hash_tag, p2i, i2p, p, to, id)
    } else if is_inside(p, from) && renamed(p, from, to) != p {
        move_models(hash_tag, p2i, i2p, p, renamed(p, from, to), id)
    } else {
        seq![]
    };
    clear + moved
}

/// The id-map writes for the listed entries, in order.
pub open spec fn id_map_models(
    hash_tag: Seq<char>,
    p2i: Seq<char>,
    i2p: Seq<char>,
    from: Seq<char>,
    to: Seq<char>,
    fields: Seq<(Seq<char>, Seq<char>)>,
) -> Seq<OpModel>
    decreases fields.len(),
{
    if fields.len() == 0 {
        seq![]
    } else {
        id_map_models(hash_tag, p2i, i2p, from, to, fields.drop_last()) + field_models(
            hash_tag,
            p2i,
            i2p,
            from,
            to,
            fields.last().0,
            fields.last().1,
        )
    }
}

/// The characters of each pair of strings.
pub open spec fn string_pairs(v: Seq<(String, String)>) -> Seq<(Seq<char>, Seq<char>)> {
    v.map_values(|e: (String, String)| (e.0@, e.1@))
}

fn push_move(
    ops: &mut Vec<StoreOp>,
    hash_tag: &str,
    p2i: &str,
    i2p: &str,
    old_path: &String,
    new: &str,
    id: &String,
)
    ensures
        models(final(ops)@) == models(old(ops)@) + move_models(
            hash_tag@,
            p2i@,
            i2p@,
            old_path@,
            new@,
            id@,
        ),
{
    push_op(ops, StoreOp::HDel { key: p2i.to_owned(), field: old_path.clone() });
    push_op(ops, StoreOp::HSet { key: p2i.to_owned(), field: new.to_owned(), value: id.clone() });
    push_op(ops, StoreOp::HDel { key: i2p.to_owned(), field: id.clone() });
    push_op(ops, StoreOp::HSet { key: i2p.to_owned(), field: id.clone(), value: new.to_owned() });
    push_op(ops, StoreOp::Touch { key: metadata_key(hash_tag, new), fileid: id.clone() });
    assert(models(ops@) =~= models(old(ops)@) + move_models(
        hash_tag@,
        p2i@,
        i2p@,
        old_path@,
        new@,
        id@,
    ));
}

/// The writes that move the entries of the path-to-id map at `p2i` and its
/// reverse at `i2p`.
pub fn id_map_updates(
    hash_tag: &str,
    p2i: &str,
    i2p: &str,
    fields: &Vec<(String, String)>,
    from: &str,
    to: &str,
) -> (r: Option<Vec<StoreOp>>)
    ensures
        r is None <==> exists|i: int|
            0 <= i < fields.len() && !renamable(#[trigger] fields@[i].0@, from@, to@),
        from@.len() <= 4096 ==> r is Some,
        r matches Some(ops) ==> models(ops@) == id_map_models(
            hash_tag@,
            p2i@,
            i2p@,
            from@,
            to@,
            string_pairs(fields@),
        ),
        !to@.contains('$') && r is Some ==> forall|i: int|
            0 <= i < fields.len() && #[trigger] is_inside(fields@[i].0@, from@) ==> renamed(
                fields@[i].0@,
                from@,
                to@,
            ) == moved_path(fields@[i].0@, from@, to@),
{
    let mut ops: Vec<StoreOp> = Vec::new();
    let dir = concat_str(from, "/");
    proof {
        reveal_strlit("/");
        assert(dir@ =~= dir_prefix(from@));
    }
    let mut i: usize = 0;
    while i < fields.len()
        invariant
            i <= fields.len(),
            forall|j: int| 0 <= j < i ==> renamable(#[trigger] fields@[j].0@, from@, to@),
            dir@ == dir_prefix(from@),
            models(ops@) == id_map_models(
                hash_tag@,
                p2i@,
                i2p@,
                from@,
                to@,
                string_pairs(fields@).subrange(0, i as int),
            ),
            !to@.contains('$') ==> forall|j: int|
                0 <= j < i && #[trigger] is_inside(fields@[j].0@, from@) ==> renamed(
                    fields@[j].0@,
                    from@,
                    to@,
                ) == moved_path(fields@[j].0@, from@, to@),
        decreases fields.len() - i,
    {
        let p = &fields[i].0;
        let id = &fields[i].1;
        let ghost before = models(ops@);
        let n = match regex_replace_literal(p.as_str(), from, to) {
            Some(n) => n,
            None => {
                return None;
            },
        };
        proof {
            lemma_inside_renamed(p@, from@, to@, n@);
            assert(string_pairs(fields@).subrange(0, i + 1).drop_last() =~= string_pairs(
                fields@,
            ).subrange(0, i as int));
        }
        if str_eq(p.as_str(), to) {
            push_op(&mut ops, StoreOp::HDel { key: i2p.to_owned(), field: id.clone() });
        }
        let ghost mid = models(ops@);
        if str_eq(p.as_str(), from) {
            push_move(&mut ops, hash_tag, p2i, i2p, p, to, id);
        } else if str_starts_with(p.as_str(), dir.as_str()) && !str_eq(n.as_str(), p.as_str()) {
            push_move(&mut ops, hash_tag, p2i, i2p, p, n.as_str(), id);
        }
        assert(models(ops@) =~= before + field_models(hash_tag@, p2i@, i2p@, from@, to@, p@, id@));
        i += 1;
    }
    assert(string_pairs(fields@).subrange(0, fields.len() as int) =~= string_pairs(fields@));
    Some(ops)
}

/// A path inside the moved directory lands inside the target, with the
/// same path below it.
pub proof fn lemma_moved_path_inside(p: Seq<char>, from: Seq<char>, to: Seq<char>)
    requires
        is_inside(p, from),
    ensures
        is_inside(moved_path(p, from, to), to),
        moved_path(p, from, to).subrange(to.len() as int, moved_path(p, from, to).len() as int)
            == p.subrange(from.len() as int, p.len() as int),
{
    let m = moved_path(p, from, to);
    assert(p[from.len() as int] == dir_prefix(from)[from.len() as int]);
    assert(m.subrange(0, to.len() + 1int) =~= dir_prefix(to));
    assert(m.subrange(to.len() as int, m.len() as int) =~= p.subrange(from.len() as int, p.len() as int));
}

/// A node moved with its directory keeps its depth below that directory:
/// its slash count changes by the difference between the two directories'.
pub proof fn lemma_moved_path_depth(p: Seq<char>, from: Seq<char>, to: Seq<char>)
    requires
        is_inside(p, from),
    ensures
        count_char(moved_path(p, from, to), '/') + count_char(from, '/') == count_char(p, '/')
            + count_char(to, '/'),
{
    let rest = p.subrange(from.len() as int, p.len() as int);
    assert(p =~= from + rest) by {
        assert(from =~= dir_prefix(from).subrange(0, from.len() as int));
    }
    crate::text::lemma_count_char_concat(from, rest, '/');
    crate::text::lemma_count_char_concat(to, rest, '/');
}

/// When the target holds no `$`, the replacement of a path inside `from`
/// is the prefix swap.
proof fn lemma_inside_renamed(p: Seq<char>, from: Seq<char>, to: Seq<char>, r: Seq<char>)
    requires
        literal_regex_replace(p, from, to) == Some(r),
        !to.contains('$') ==> r == replace_first(p, from, to),
    ensures
        !to.contains('$') && is_inside(p, from) ==> renamed(p, from, to) == moved_path(p, from, to),
{
    if !to.contains('$') && is_inside(p, from) {
        assert(from.is_prefix_of(p)) by {
            assert(from =~= dir_prefix(from).subrange(0, from.len() as int));
        }
        crate::text::lemma_replace_prefix(p, from, to);
    }
}

// What the id-map writes of a move leave in the two hashes.


/// The fields of a hash after one write: an `HSet` at `key` sets a field,
/// an `HDel` at `key` removes one; any other write is not applied.
pub open spec fn field_write(h: Map<Seq<char>, Seq<char>>, key: Seq<char>, op: OpModel) -> Map<
    Seq<char>,
    Seq<char>,
> {
    match op {
        OpModel::HSet(k, f, v) => if k == key {
            h.insert(f, v)
        } else {
            h
        },
        OpModel::HDel(k, f) => if k == key {
            h.remove(f)
        } else {
            h
        },
        _ => h,
    }
}

/// The fields of the hash at `key` after the field writes among `ops`,
/// applied in order to its fields `h`.
pub open spec fn hash_after(h: Map<Seq<char>, Seq<char>>, key: Seq<char>, ops: Seq<OpModel>) -> Map<
    Seq<char>,
    Seq<char>,
>
    decreases ops.len(),
{
    if ops.len() == 0 {
        h
    } else {
        field_write(hash_after(h, key, ops.drop_last()), key, ops.last())
    }
}

/// The path-to-id map that the entries `fields` list, a later entry for a
/// path replacing an earlier one.
pub open spec fn fields_map(fields: Seq<(Seq<char>, Seq<char>)>) -> Map<Seq<char>, Seq<char>>
    decreases fields.len(),
{
    if fields.len() == 0 {
        Map::empty()
    } else {
        fields_map(fields.drop_last()).insert(fields.last().0, fields.last().1)
    }
}

/// Whether `p2i` and `i2p` are inverse to each other.
pub open spec fn inverse_maps(p2i: Map<Seq<char>, Seq<char>>, i2p: Map<Seq<char>, Seq<char>>) -> bool {
    &&& forall|p: Seq<char>| #[trigger]
        p2i.contains_key(p) ==> i2p.contains_key(p2i[p]) && i2p[p2i[p]] == p
    &&& forall|id: Seq<char>| #[trigger]
        i2p.contains_key(id) ==> p2i.contains_key(i2p[id]) && p2i[i2p[id]] == id
}

/// Whether the move of `from` carries the path `p` along.
pub open spec fn moves(p: Seq<char>, from: Seq<char>) -> bool {
    p == from || is_inside(p, from)
}

/// Where the move of `from` to `to` puts a path that it carries along.
pub open spec fn destination(p: Seq<char>, from: Seq<char>, to: Seq<char>) -> Seq<char> {
    if p == from {
        to
    } else {
        moved_path(p, from, to)
    }
}

/// The path-to-id map after the moves of the entries `fields`.
spec fn p2i_moved(
    h: Map<Seq<char>, Seq<char>>,
    from: Seq<char>,
    to: Seq<char>,
    fields: Seq<(Seq<char>, Seq<char>)>,
) -> Map<Seq<char>, Seq<char>>
    decreases fields.len(),
{
    if fields.len() == 0 {
        h
    } else {
        let g = p2i_moved(h, from, to, fields.drop_last());
        let (p, id) = fields.last();
        if moves(p, from) {
            g.remove(p).insert(destination(p, from, to), id)
        } else {
            g
        }
    }
}

/// The id-to-path map after the moves of the entries `fields`.
spec fn i2p_moved(
    h: Map<Seq<char>, Seq<char>>,
    from: Seq<char>,
    to: Seq<char>,
    fields: Seq<(Seq<char>, Seq<char>)>,
) -> Map<Seq<char>, Seq<char>>
    decreases fields.len(),
{
    if fields.len() == 0 {
        h
    } else {
        let g = i2p_moved(h, from, to, fields.drop_last());
        let (p, id) = fields.last();
        if moves(p, from) {
            g.insert(id, destination(p, from, to))
        } else if p == to {
            g.remove(id)
        } else {
            g
        }
    }
}

proof fn lemma_hash_after_concat(
    h: Map<Seq<char>, Seq<char>>,
    key: Seq<char>,
    a: Seq<OpModel>,
    b: Seq<OpModel>,
)
    ensures
        hash_after(h, key, a + b) == hash_after(hash_after(h, key, a), key, b),
    decreases b.len(),
{
    if b.len() == 0 {
        assert(a + b =~= a);
    } else {
        lemma_hash_after_concat(h, key, a, b.drop_last());
        assert((a + b).drop_last() =~= a + b.drop_last());
        assert((a + b).last() == b.last());
    }
}

proof fn lemma_hash_after_push(h: Map<Seq<char>, Seq<char>>, key: Seq<char>, a: Seq<OpModel>, op: OpModel)
    ensures
        hash_after(h, key, a.push(op)) == field_write(hash_after(h, key, a), key, op),
{
    assert(a.push(op).drop_last() =~= a);
}

/// A path inside `from` is not where the move to another `to` puts it.
proof fn lemma_moved_path_differs(p: Seq<char>, from: Seq<char>, to: Seq<char>)
    requires
        is_inside(p, from),
        to != from,
    ensures
        moved_path(p, from, to) != p,
{
    let m = moved_path(p, from, to);
    if m == p && to.len() == from.len() {
        assert(from =~= p.subrange(0, from.len() as int));
        assert(to =~= m.subrange(0, to.len() as int));
    }
}

/// The writes of one entry, seen from one of the two hashes.
proof fn lemma_entry_writes(
    h: Map<Seq<char>, Seq<char>>,
    hash_tag: Seq<char>,
    p2i: Seq<char>,
    i2p: Seq<char>,
    from: Seq<char>,
    to: Seq<char>,
    p: Seq<char>,
    id: Seq<char>,
)
    requires
        p2i != i2p,
        to != from,
        is_inside(p, from) ==> renamed(p, from, to) == moved_path(p, from, to),
    ensures
        hash_after(h, p2i, field_models(hash_tag, p2i, i2p, from, to, p, id)) == if moves(
            p,
            from,
        ) {
            h.remove(p).insert(destination(p, from, to), id)
        } else {
            h
        },
        hash_after(h, i2p, field_models(hash_tag, p2i, i2p, from, to, p, id)) == if moves(
            p,
            from,
        ) {
            h.insert(id, destination(p, from, to))
        } else if p == to {
            h.remove(id)
        } else {
            h
        },
{
    let clear: Seq<OpModel> = if p == to {
        seq![OpModel::HDel(i2p, id)]
    } else {
        seq![]
    };
    if is_inside(p, from) {
        lemma_moved_path_differs(p, from, to);
    }
    assert(p == from ==> !is_inside(p, from));
    let dest = destination(p, from, to);
    let mv = move_models(hash_tag, p2i, i2p, p, dest, id);
    let moved: Seq<OpModel> = if moves(p, from) {
        mv
    } else {
        seq![]
    };
    assert(field_models(hash_tag, p2i, i2p, from, to, p, id) == clear + moved);
    let s0: Seq<OpModel> = seq![];
    let s1 = s0.push(OpModel::HDel(p2i, p));
    let s2 = s1.push(OpModel::HSet(p2i, dest, id));
    let s3 = s2.push(OpModel::HDel(i2p, id));
    let s4 = s3.push(OpModel::HSet(i2p, id, dest));
    let s5 = s4.push(OpModel::Touch(hash_tag + dest, id));
    assert(mv =~= s5);
    let s6 = s0.push(OpModel::HDel(i2p, id));
    if p == to {
        assert(clear =~= s6);
    } else {
        assert(clear =~= s0);
    }
    assert(s0 + moved =~= moved);
    assert forall|g: Map<Seq<char>, Seq<char>>, key: Seq<char>|
        key == p2i || key == i2p implies hash_after(g, key, s5) == field_write(
        field_write(
            field_write(field_write(field_write(g, key, s1[0]), key, s2[1]), key, s3[2]),
            key,
            s4[3],
        ),
        key,
        s5[4],
    ) by {
        lemma_hash_after_push(g, key, s4, s5[4]);
        lemma_hash_after_push(g, key, s3, s4[3]);
        lemma_hash_after_push(g, key, s2, s3[2]);
        lemma_hash_after_push(g, key, s1, s2[1]);
        lemma_hash_after_push(g, key, s0, s1[0]);
    }
    lemma_hash_after_push(h, p2i, s0, s6[0]);
    lemma_hash_after_push(h, i2p, s0, s6[0]);
    lemma_hash_after_concat(h, p2i, clear, moved);
    lemma_hash_after_concat(h, i2p, clear, moved);
    let hc = hash_after(h, i2p, clear);
    if moves(p, from) {
        assert(hash_after(h, p2i, mv) =~= h.remove(p).insert(dest, id));
        assert(hash_after(hc, i2p, mv) =~= h.insert(id, dest));
    }
}

/// The id-map writes of all the entries, seen from each hash.
proof fn lemma_all_writes(
    hp: Map<Seq<char>, Seq<char>>,
    hi: Map<Seq<char>, Seq<char>>,
    hash_tag: Seq<char>,
    p2i: Seq<char>,
    i2p: Seq<char>,
    from: Seq<char>,
    to: Seq<char>,
    fields: Seq<(Seq<char>, Seq<char>)>,
)
    requires
        p2i != i2p,
        to != from,
        forall|i: int|
            0 <= i < fields.len() && #[trigger] is_inside(fields[i].0, from) ==> renamed(
                fields[i].0,
                from,
                to,
            ) == moved_path(fields[i].0, from, to),
    ensures
        hash_after(hp, p2i, id_map_models(hash_tag, p2i, i2p, from, to, fields)) == p2i_moved(
            hp,
            from,
            to,
            fields,
        ),
        hash_after(hi, i2p, id_map_models(hash_tag, p2i, i2p, from, to, fields)) == i2p_moved(
            hi,
            from,
            to,
            fields,
        ),
    decreases fields.len(),
{
    if fields.len() > 0 {
        let rest = fields.drop_last();
        assert forall|i: int|
            0 <= i < rest.len() && #[trigger] is_inside(rest[i].0, from) implies renamed(
            rest[i].0,
            from,
            to,
        ) == moved_path(rest[i].0, from, to) by {
            assert(rest[i] == fields[i]);
        }
        lemma_all_writes(hp, hi, hash_tag, p2i, i2p, from, to, rest);
        let (p, id) = fields.last();
        assert(is_inside(fields[fields.len() - 1].0, from) ==> renamed(p, from, to) == moved_path(
            p,
            from,
            to,
        ));
        let head = id_map_models(hash_tag, p2i, i2p, from, to, rest);
        let tail = field_models(hash_tag, p2i, i2p, from, to, p, id);
        lemma_hash_after_concat(hp, p2i, head, tail);
        lemma_hash_after_concat(hi, i2p, head, tail);
        lemma_entry_writes(hash_after(hp, p2i, head), hash_tag, p2i, i2p, from, to, p, id);
        lemma_entry_writes(hash_after(hi, i2p, head), hash_tag, p2i, i2p, from, to, p, id);
    }
}

/// The moved path-to-id map holds each moved entry's id at its destination.
proof fn lemma_p2i_dest(
    h: Map<Seq<char>, Seq<char>>,
    from: Seq<char>,
    to: Seq<char>,
    fields: Seq<(Seq<char>, Seq<char>)>,
    k: int,
    i: int,
)
    requires
        0 <= i < k <= fields.len(),
        moves(fields[i].0, from),
        forall|a: int, b: int|
            0 <= a < fields.len() && 0 <= b < fields.len() && moves(#[trigger] fields[a].0, from)
                && moves(#[trigger] fields[b].0, from) ==> destination(fields[a].0, from, to)
                != fields[b].0 && (a != b ==> destination(fields[a].0, from, to) != destination(
                fields[b].0,
                from,
                to,
            )),
    ensures
        p2i_moved(h, from, to, fields.subrange(0, k)).contains_key(
            destination(fields[i].0, from, to),
        ),
        p2i_moved(h, from, to, fields.subrange(0, k))[destination(fields[i].0, from, to)]
            == fields[i].1,
    decreases k,
{
    let s = fields.subrange(0, k);
    assert(s.drop_last() =~= fields.subrange(0, k - 1));
    assert(s.last() == fields[k - 1]);
    if i < k - 1 {
        lemma_p2i_dest(h, from, to, fields, k - 1, i);
    }
}

/// The moved path-to-id map no longer holds a moved entry's old path.
proof fn lemma_p2i_source(
    h: Map<Seq<char>, Seq<char>>,
    from: Seq<char>,
    to: Seq<char>,
    fields: Seq<(Seq<char>, Seq<char>)>,
    k: int,
    m: int,
)
    requires
        0 <= m < k <= fields.len(),
        moves(fields[m].0, from),
        forall|a: int, b: int|
            0 <= a < fields.len() && 0 <= b < fields.len() && moves(#[trigger] fields[a].0, from)
                && moves(#[trigger] fields[b].0, from) ==> destination(fields[a].0, from, to)
                != fields[b].0,
    ensures
        !p2i_moved(h, from, to, fields.subrange(0, k)).contains_key(fields[m].0),
    decreases k,
{
    let s = fields.subrange(0, k);
    assert(s.drop_last() =~= fields.subrange(0, k - 1));
    assert(s.last() == fields[k - 1]);
    if m < k - 1 {
        lemma_p2i_source(h, from, to, fields, k - 1, m);
    }
}

/// The moved path-to-id map keeps what it held at a path that no entry
/// leaves or arrives at.
proof fn lemma_p2i_other(
    h: Map<Seq<char>, Seq<char>>,
    from: Seq<char>,
    to: Seq<char>,
    fields: Seq<(Seq<char>, Seq<char>)>,
    k: int,
    q: Seq<char>,
)
    requires
        0 <= k <= fields.len(),
        forall|a: int|
            0 <= a < fields.len() && moves(#[trigger] fields[a].0, from) ==> fields[a].0 != q
                && destination(fields[a].0, from, to) != q,
    ensures
        p2i_moved(h, from, to, fields.subrange(0, k)).contains_key(q) == h.contains_key(q),
        p2i_moved(h, from, to, fields.subrange(0, k))[q] == h[q],
    decreases k,
{
    if k > 0 {
        let s = fields.subrange(0, k);
        assert(s.drop_last() =~= fields.subrange(0, k - 1));
        assert(s.last() == fields[k - 1]);
        lemma_p2i_other(h, from, to, fields, k - 1, q);
    } else {
        assert(fields.subrange(0, k).len() == 0);
    }
}

/// The moved id-to-path map holds each moved entry's destination at its id.
proof fn lemma_i2p_moved(
    h: Map<Seq<char>, Seq<char>>,
    from: Seq<char>,
    to: Seq<char>,
    fields: Seq<(Seq<char>, Seq<char>)>,
    k: int,
    i: int,
)
    requires
        0 <= i < k <= fields.len(),
        moves(fields[i].0, from),
        forall|a: int, b: int|
            0 <= a < fields.len() && 0 <= b < fields.len() && a != b ==> #[trigger] fields[a].1
                != #[trigger] fields[b].1,
    ensures
        i2p_moved(h, from, to, fields.subrange(0, k)).contains_key(fields[i].1),
        i2p_moved(h, from, to, fields.subrange(0, k))[fields[i].1] == destination(
            fields[i].0,
            from,
            to,
        ),
    decreases k,
{
    let s = fields.subrange(0, k);
    assert(s.drop_last() =~= fields.subrange(0, k - 1));
    assert(s.last() == fields[k - 1]);
    if i < k - 1 {
        lemma_i2p_moved(h, from, to, fields, k - 1, i);
    }
}

/// The moved id-to-path map no longer holds the id of an entry that sat
/// at the destination and does not move.
proof fn lemma_i2p_cleared(
    h: Map<Seq<char>, Seq<char>>,
    from: Seq<char>,
    to: Seq<char>,
    fields: Seq<(Seq<char>, Seq<char>)>,
    k: int,
    m: int,
)
    requires
        0 <= m < k <= fields.len(),
        fields[m].0 == to,
        !moves(to, from),
        forall|a: int, b: int|
            0 <= a < fields.len() && 0 <= b < fields.len() && a != b ==> #[trigger] fields[a].1
                != #[trigger] fields[b].1,
    ensures
        !i2p_moved(h, from, to, fields.subrange(0, k)).contains_key(fields[m].1),
    decreases k,
{
    let s = fields.subrange(0, k);
    assert(s.drop_last() =~= fields.subrange(0, k - 1));
    assert(s.last() == fields[k - 1]);
    if m < k - 1 {
        lemma_i2p_cleared(h, from, to, fields, k - 1, m);
    }
}

/// The moved id-to-path map keeps what it held at an id whose entries
/// neither move nor sit at the destination.
proof fn lemma_i2p_other(
    h: Map<Seq<char>, Seq<char>>,
    from: Seq<char>,
    to: Seq<char>,
    fields: Seq<(Seq<char>, Seq<char>)>,
    k: int,
    id: Seq<char>,
)
    requires
        0 <= k <= fields.len(),
        forall|a: int|
            0 <= a < fields.len() && #[trigger] fields[a].1 == id ==> !moves(fields[a].0, from)
                && fields[a].0 != to,
    ensures
        i2p_moved(h, from, to, fields.subrange(0, k)).contains_key(id) == h.contains_key(id),
        i2p_moved(h, from, to, fields.subrange(0, k))[id] == h[id],
    decreases k,
{
    if k > 0 {
        let s = fields.subrange(0, k);
        assert(s.drop_last() =~= fields.subrange(0, k - 1));
        assert(s.last() == fields[k - 1]);
        lemma_i2p_other(h, from, to, fields, k - 1, id);
    } else {
        assert(fields.subrange(0, k).len() == 0);
    }
}

/// With one entry per path, the listed map holds each entry, and nothing
/// else.
proof fn lemma_fields_map(fields: Seq<(Seq<char>, Seq<char>)>)
    requires
        forall|a: int, b: int|
            0 <= a < fields.len() && 0 <= b < fields.len() && a != b ==> #[trigger] fields[a].0
                != #[trigger] fields[b].0,
    ensures
        forall|a: int|
            0 <= a < fields.len() ==> fields_map(fields).contains_key(#[trigger] fields[a].0)
                && fields_map(fields)[fields[a].0] == fields[a].1,
        forall|q: Seq<char>| #[trigger]
            fields_map(fields).contains_key(q) ==> exists|a: int|
                0 <= a < fields.len() && #[trigger] fields[a].0 == q,
    decreases fields.len(),
{
    if fields.len() > 0 {
        let rest = fields.drop_last();
        assert forall|a: int, b: int|
            0 <= a < rest.len() && 0 <= b < rest.len() && a != b implies #[trigger] rest[a].0
            != #[trigger] rest[b].0 by {
            assert(rest[a] == fields[a] && rest[b] == fields[b]);
        }
        lemma_fields_map(rest);
        let n = fields.len() - 1;
        assert forall|a: int|
            0 <= a < fields.len() implies fields_map(fields).contains_key(#[trigger] fields[a].0)
            && fields_map(fields)[fields[a].0] == fields[a].1 by {
            if a < n {
                assert(rest[a] == fields[a]);
                assert(fields[a].0 != fields[n].0);
            }
        }
        assert forall|q: Seq<char>| #[trigger]
            fields_map(fields).contains_key(q) implies exists|a: int|
                0 <= a < fields.len() && #[trigger] fields[a].0 == q by {
            if q != fields[n].0 {
                assert(fields_map(rest).contains_key(q));
                let a = choose|a: int| 0 <= a < rest.len() && #[trigger] rest[a].0 == q;
                assert(rest[a] == fields[a]);
            }
        }
    }
}

/// Two paths inside `from` that the move puts at the same place are the
/// same path.
proof fn lemma_moved_path_injective(p1: Seq<char>, p2: Seq<char>, from: Seq<char>, to: Seq<char>)
    requires
        is_inside(p1, from),
        is_inside(p2, from),
        moved_path(p1, from, to) == moved_path(p2, from, to),
    ensures
        p1 == p2,
{
    lemma_moved_path_inside(p1, from, to);
    lemma_moved_path_inside(p2, from, to);
    assert(from =~= p1.subrange(0, from.len() as int));
    assert(from =~= p2.subrange(0, from.len() as int));
    assert(p1 =~= from + p1.subrange(from.len() as int, p1.len() as int));
    assert(p2 =~= from + p2.subrange(from.len() as int, p2.len() as int));
}

/// Among the id-map writes, each moved entry's node is stamped at its
/// destination with its own id.
proof fn lemma_stamped(
    hash_tag: Seq<char>,
    p2i: Seq<char>,
    i2p: Seq<char>,
    from: Seq<char>,
    to: Seq<char>,
    fields: Seq<(Seq<char>, Seq<char>)>,
    a: int,
)
    requires
        0 <= a < fields.len(),
        moves(fields[a].0, from),
        to != from,
        is_inside(fields[a].0, from) ==> renamed(fields[a].0, from, to) == moved_path(
            fields[a].0,
            from,
            to,
        ),
    ensures
        id_map_models(hash_tag, p2i, i2p, from, to, fields).contains(
            OpModel::Touch(hash_tag + destination(fields[a].0, from, to), fields[a].1),
        ),
    decreases fields.len(),
{
    let rest = fields.drop_last();
    let head = id_map_models(hash_tag, p2i, i2p, from, to, rest);
    let (p, id) = fields.last();
    let tail = field_models(hash_tag, p2i, i2p, from, to, p, id);
    let t = OpModel::Touch(hash_tag + destination(fields[a].0, from, to), fields[a].1);
    if a == fields.len() - 1 {
        if is_inside(p, from) {
            lemma_moved_path_differs(p, from, to);
        }
        assert(p == from ==> !is_inside(p, from));
        let mv = move_models(hash_tag, p2i, i2p, p, destination(p, from, to), id);
        let clear: Seq<OpModel> = if p == to {
            seq![OpModel::HDel(i2p, id)]
        } else {
            seq![]
        };
        assert(tail == clear + mv);
        assert(mv[4] == t);
        assert(tail[clear.len() + 4int] == t);
        assert((head + tail)[head.len() + clear.len() + 4int] == t);
    } else {
        assert(rest[a] == fields[a]);
        lemma_stamped(hash_tag, p2i, i2p, from, to, rest, a);
        let i = choose|i: int| 0 <= i < head.len() && head[i] == t;
        assert((head + tail)[i] == t);
    }
}

/// After a move of `from` to `to`, the path-to-id and id-to-path maps are
/// still inverse to each other: the moved node's id sits at `to`, each node
/// inside it keeps its id at the same place below `to`, and `from` is no
/// longer a path. `fields` lists the path-to-id map as it was read, one
/// entry per path, and `i2p` is its inverse; `from` is in it; `to` is
/// neither `from` nor inside it, and nothing lies inside `to`; the rename
/// of each path inside `from` swaps its leading `from` for `to` (as it
/// does when `to` holds no `$`); and no metadata key that the move stamps
/// is one of the two hashes.
pub proof fn lemma_move_keeps_id_maps_inverse(
    hash_tag: Seq<char>,
    p2i_key: Seq<char>,
    i2p_key: Seq<char>,
    from: Seq<char>,
    to: Seq<char>,
    fields: Seq<(Seq<char>, Seq<char>)>,
    i2p: Map<Seq<char>, Seq<char>>,
)
    requires
        p2i_key != i2p_key,
        forall|a: int, b: int|
            0 <= a < fields.len() && 0 <= b < fields.len() && a != b ==> #[trigger] fields[a].0
                != #[trigger] fields[b].0,
        inverse_maps(fields_map(fields), i2p),
        fields_map(fields).contains_key(from),
        to != from,
        !is_inside(to, from),
        forall|a: int| 0 <= a < fields.len() ==> !is_inside(#[trigger] fields[a].0, to),
        forall|a: int|
            0 <= a < fields.len() && #[trigger] is_inside(fields[a].0, from) ==> renamed(
                fields[a].0,
                from,
                to,
            ) == moved_path(fields[a].0, from, to),
        forall|q: Seq<char>|
            q == to || #[trigger] is_inside(q, to) ==> hash_tag + q != p2i_key && hash_tag + q
                != i2p_key,
    ensures
        ({
            let ops = id_map_models(hash_tag, p2i_key, i2p_key, from, to, fields);
            let p2i_after = hash_after(fields_map(fields), p2i_key, ops);
            let i2p_after = hash_after(i2p, i2p_key, ops);
            &&& inverse_maps(p2i_after, i2p_after)
            &&& p2i_after.contains_key(to)
            &&& p2i_after[to] == fields_map(fields)[from]
            &&& !p2i_after.contains_key(from)
            &&& i2p_after.contains_key(fields_map(fields)[from])
            &&& i2p_after[fields_map(fields)[from]] == to
            &&& ops.contains(OpModel::Touch(hash_tag + to, fields_map(fields)[from]))
            &&& forall|a: int|
                0 <= a < fields.len() && #[trigger] is_inside(fields[a].0, from) ==> {
                    &&& p2i_after.contains_key(moved_path(fields[a].0, from, to))
                    &&& p2i_after[moved_path(fields[a].0, from, to)] == fields[a].1
                    &&& i2p_after.contains_key(fields[a].1)
                    &&& i2p_after[fields[a].1] == moved_path(fields[a].0, from, to)
                    &&& ops.contains(
                        OpModel::Touch(hash_tag + moved_path(fields[a].0, from, to), fields[a].1),
                    )
                }
        }),
{
    let pm = fields_map(fields);
    let n = fields.len() as int;
    lemma_fields_map(fields);
    lemma_all_writes(pm, i2p, hash_tag, p2i_key, i2p_key, from, to, fields);
    assert(fields.subrange(0, n) =~= fields);
    let f = choose|a: int| 0 <= a < fields.len() && #[trigger] fields[a].0 == from;
    assert(!moves(to, from));
    // Each destination is `to` or lies inside it.
    assert forall|a: int|
        0 <= a < fields.len() && moves(#[trigger] fields[a].0, from) implies destination(
        fields[a].0,
        from,
        to,
    ) == to || is_inside(destination(fields[a].0, from, to), to) by {
        if fields[a].0 != from {
            lemma_moved_path_inside(fields[a].0, from, to);
        }
    }
    // Ids are distinct.
    assert forall|a: int, b: int|
        0 <= a < fields.len() && 0 <= b < fields.len() && a != b implies #[trigger] fields[a].1
        != #[trigger] fields[b].1 by {
        assert(pm[fields[a].0] == fields[a].1);
        assert(pm[fields[b].0] == fields[b].1);
        assert(pm.contains_key(fields[a].0));
        assert(pm.contains_key(fields[b].0));
    }
    // Destinations are new paths, one per moved entry.
    assert forall|a: int, b: int|
        0 <= a < fields.len() && 0 <= b < fields.len() && moves(#[trigger] fields[a].0, from)
            && moves(#[trigger] fields[b].0, from) implies destination(fields[a].0, from, to)
        != fields[b].0 && (a != b ==> destination(fields[a].0, from, to) != destination(
        fields[b].0,
        from,
        to,
    )) by {
        let pa = fields[a].0;
        let pb = fields[b].0;
        if pa == from {
            if a != b && pb != from {
                lemma_moved_path_inside(pb, from, to);
            }
        } else {
            lemma_moved_path_inside(pa, from, to);
            if a != b && pb != from {
                if destination(pa, from, to) == destination(pb, from, to) {
                    lemma_moved_path_injective(pa, pb, from, to);
                }
            }
        }
    }
    let pa = p2i_moved(pm, from, to, fields.subrange(0, n));
    let ia = i2p_moved(i2p, from, to, fields.subrange(0, n));
    lemma_p2i_dest(pm, from, to, fields, n, f);
    lemma_p2i_source(pm, from, to, fields, n, f);
    lemma_i2p_moved(i2p, from, to, fields, n, f);
    lemma_stamped(hash_tag, p2i_key, i2p_key, from, to, fields, f);
    assert forall|a: int|
        0 <= a < fields.len() && #[trigger] is_inside(fields[a].0, from) implies {
        &&& pa.contains_key(moved_path(fields[a].0, from, to))
        &&& pa[moved_path(fields[a].0, from, to)] == fields[a].1
        &&& ia.contains_key(fields[a].1)
        &&& ia[fields[a].1] == moved_path(fields[a].0, from, to)
        &&& id_map_models(hash_tag, p2i_key, i2p_key, from, to, fields).contains(
            OpModel::Touch(hash_tag + moved_path(fields[a].0, from, to), fields[a].1),
        )
    } by {
        lemma_p2i_dest(pm, from, to, fields, n, a);
        lemma_i2p_moved(i2p, from, to, fields, n, a);
        lemma_stamped(hash_tag, p2i_key, i2p_key, from, to, fields, a);
    }
    assert forall|q: Seq<char>| #[trigger] pa.contains_key(q) implies ia.contains_key(pa[q])
        && ia[pa[q]] == q by {
        if exists|a: int|
            0 <= a < fields.len() && moves(#[trigger] fields[a].0, from) && destination(
                fields[a].0,
                from,
                to,
            ) == q {
            let a = choose|a: int|
                0 <= a < fields.len() && moves(#[trigger] fields[a].0, from) && destination(
                    fields[a].0,
                    from,
                    to,
                ) == q;
            lemma_p2i_dest(pm, from, to, fields, n, a);
            lemma_i2p_moved(i2p, from, to, fields, n, a);
        } else if exists|a: int|
            0 <= a < fields.len() && moves(#[trigger] fields[a].0, from) && fields[a].0 == q {
            let a = choose|a: int|
                0 <= a < fields.len() && moves(#[trigger] fields[a].0, from) && fields[a].0 == q;
            lemma_p2i_source(pm, from, to, fields, n, a);
        } else {
            lemma_p2i_other(pm, from, to, fields, n, q);
            let m = choose|a: int| 0 <= a < fields.len() && #[trigger] fields[a].0 == q;
            let id = fields[m].1;
            assert(q != to) by {
                assert(moves(fields[f].0, from));
            }
            lemma_i2p_other(i2p, from, to, fields, n, id);
        }
    }
    assert forall|id: Seq<char>| #[trigger] ia.contains_key(id) implies pa.contains_key(ia[id])
        && pa[ia[id]] == id by {
        if exists|a: int|
            0 <= a < fields.len() && moves(#[trigger] fields[a].0, from) && fields[a].1 == id {
            let a = choose|a: int|
                0 <= a < fields.len() && moves(#[trigger] fields[a].0, from) && fields[a].1 == id;
            lemma_i2p_moved(i2p, from, to, fields, n, a);
            lemma_p2i_dest(pm, from, to, fields, n, a);
        } else if exists|a: int| 0 <= a < fields.len() && #[trigger] fields[a].0 == to && fields[a].1 == id {
            let a = choose|a: int|
                0 <= a < fields.len() && #[trigger] fields[a].0 == to && fields[a].1 == id;
            lemma_i2p_cleared(i2p, from, to, fields, n, a);
        } else {
            lemma_i2p_other(i2p, from, to, fields, n, id);
            let p = i2p[id];
            assert(pm.contains_key(p));
            let m = choose|a: int| 0 <= a < fields.len() && #[trigger] fields[a].0 == p;
            assert(fields[m].1 == id);
            lemma_p2i_other(pm, from, to, fields, n, p);
        }
    }
}

} // verus!
