//! Splitting a file's text into Shamir shares and joining it back: the
//! text is cut into chunks, each chunk's number is split into shares, and
//! the shares of all chunks are kept as one JSON document.

use vstd::prelude::*;
use std::collections::HashMap;
use std::str::FromStr;
use shamir_secret_sharing::num_bigint::{BigInt, Sign};
use vstd::string::StrSliceExecFns;
use vstd::utf8::{decode_utf8, encode_utf8, valid_utf8};
use crate::decimal::{all_digits, digits_value};
use crate::text::{chars_of, concat_str, str_eq};

verus! {

/// The digits of a big integer's text once a leading `-` and then a
/// leading `+` are dropped, each only when what follows does not start
/// with `+`.
pub open spec fn bigint_digits(s: Seq<char>) -> Seq<char> {
    let a = if s.len() > 0 && s[0] == '-' && !(s.len() > 1 && s[1] == '+') {
        s.drop_first()
    } else {
        s
    };
    if a.len() > 0 && a[0] == '+' && !(a.len() > 1 && a[1] == '+') {
        a.drop_first()
    } else {
        a
    }
}

/// Whether `s` is negative big-integer text.
pub open spec fn bigint_negative(s: Seq<char>) -> bool {
    s.len() > 0 && s[0] == '-' && !(s.len() > 1 && s[1] == '+')
}

/// Whether num-bigint reads `s` as a decimal big integer: an optional
/// sign, then decimal digits, possibly separated by `_` but starting with
/// a digit.
pub open spec fn bigint_text_ok(s: Seq<char>) -> bool {
    let d = bigint_digits(s);
    &&& d.len() > 0
    &&& d[0] != '_'
    &&& forall|i: int| 0 <= i < d.len() ==> ('0' <= #[trigger] d[i] && d[i] <= '9') || d[i] == '_'
}

/// `s` without its `_` separators.
pub open spec fn without_separators(s: Seq<char>) -> Seq<char>
    decreases s.len(),
{
    if s.len() == 0 {
        seq![]
    } else if s.last() == '_' {
        without_separators(s.drop_last())
    } else {
        without_separators(s.drop_last()).push(s.last())
    }
}

/// The value of big-integer text that num-bigint reads.
pub open spec fn bigint_text_value(s: Seq<char>) -> int {
    let v = digits_value(without_separators(bigint_digits(s))) as int;
    if bigint_negative(s) {
        -v
    } else {
        v
    }
}

/// Whether every share text is a plain, non-empty run of digits.
pub open spec fn plain_shares(shares: Seq<Seq<char>>) -> bool {
    forall|i: int| 0 <= i < shares.len() ==> #[trigger] shares[i].len() > 0 && all_digits(shares[i])
}

/// The characters of each string.
pub open spec fn texts(v: Seq<String>) -> Seq<Seq<char>> {
    v.map_values(|s: String| s@)
}

/// The share texts of each string list.
pub open spec fn share_views(v: Seq<Vec<String>>) -> Seq<Seq<Seq<char>>> {
    v.map_values(|c: Vec<String>| texts(c@))
}

/// `items` joined by commas.
pub open spec fn comma_joined(items: Seq<Seq<char>>) -> Seq<char>
    decreases items.len(),
{
    if items.len() == 0 {
        seq![]
    } else if items.len() == 1 {
        items[0]
    } else {
        comma_joined(items.drop_last()) + seq![','] + items.last()
    }
}

/// A JSON string holding `s`, which needs no escapes.
pub open spec fn json_string(s: Seq<char>) -> Seq<char> {
    seq!['"'] + s + seq!['"']
}

/// The JSON object of one chunk: `{"shares":[...]}`.
pub open spec fn json_chunk(shares: Seq<Seq<char>>) -> Seq<char> {
    "{\"shares\":["@ + comma_joined(shares.map_values(|s: Seq<char>| json_string(s))) + "]}"@
}

/// The JSON document of all chunks: an array of their objects.
pub open spec fn json_shares_spec(chunks: Seq<Seq<Seq<char>>>) -> Seq<char> {
    seq!['['] + comma_joined(chunks.map_values(|c: Seq<Seq<char>>| json_chunk(c))) + seq![']']
}

/// The number that the bytes `b` spell, most significant byte first.
pub open spec fn be_value(b: Seq<u8>) -> nat
    decreases b.len(),
{
    if b.len() == 0 {
        0
    } else {
        be_value(b.drop_last()) * 256 + (b.last() as nat)
    }
}

/// The big-endian bytes of `n` without leading zeros; a single zero byte
/// for 0.
pub open spec fn minimal_be(n: nat) -> Seq<u8>
    decreases n,
{
    if n < 256 {
        seq![n as u8]
    } else {
        minimal_be(n / 256).push((n % 256) as u8)
    }
}

/// Whether `p` is a prime number.
pub open spec fn is_prime(p: int) -> bool {
    p > 1 && forall|d: int| 1 < d < p ==> #[trigger] (p % d) != 0
}

/// Whether sharing the chunk `chunk` over the prime `p` with `threshold`
/// shares needed is exact: `p` is prime and above the threshold, and the
/// chunk's number is below `p`.
pub open spec fn exact_sharing(p: int, threshold: nat, chunk: Seq<u8>) -> bool {
    is_prime(p) && threshold < p && be_value(chunk) < p
}

/// Calls shamir_secret_sharing's `ShamirSecretSharing::split` on the
/// chunk's bytes read as a big-endian non-negative number
/// (`BigInt::from_bytes_be`), and writes each share in decimal
/// (`to_str_radix(10)`). Trusted: the source gives `share_amount` shares,
/// each the value of a polynomial reduced modulo the positive prime, so
/// non-negative; the shares themselves are random. The shares are the
/// points 1, 2, ... of a polynomial whose constant term is the chunk's
/// number, so that, as the crate's documented example shows, `recover` on
/// the first `threshold` of them gives the number back whenever the
/// interpolation is exact: over a prime above the threshold, for a number
/// below the prime. The number then comes back as its big-endian bytes
/// without leading zeros (num-bigint's `to_bytes_be`).
#[verifier::external_body]
fn shamir_split(threshold: usize, share_amount: usize, prime: &str, chunk: &[u8]) -> (r: Vec<String>)
    requires
        1 <= threshold < share_amount,
        bigint_text_ok(prime@),
        bigint_text_value(prime@) > 1,
    ensures
        r@.len() == share_amount,
        plain_shares(texts(r@)),
        exact_sharing(bigint_text_value(prime@), threshold as nat, chunk@) ==> shamir_recovered(
            prime@,
            texts(r@).take(threshold as int),
        ) == minimal_be(be_value(chunk@)),
{
    let sss = shamir_secret_sharing::ShamirSecretSharing {
        threshold,
        share_amount,
        prime: BigInt::from_str(prime).unwrap(),
    };
    let shares = sss.split(BigInt::from_bytes_be(Sign::Plus, chunk));
    shares.into_iter().map(|(_index, share)| share.to_str_radix(10)).collect()
}

/// Name for what shamir_secret_sharing's `ShamirSecretSharing::recover`
/// gives, written as big-endian bytes (`to_bytes_be`), when the shares
/// with the texts `shares` are taken as the points 1, 2, ... modulo the
/// prime with text `prime`.
pub uninterp spec fn shamir_recovered(prime: Seq<char>, shares: Seq<Seq<char>>) -> Seq<u8>;

/// Calls shamir_secret_sharing's `ShamirSecretSharing::recover` on the
/// shares read as decimal big integers (`BigInt::parse_bytes`) at the
/// points 1, 2, ..., and writes the secret's magnitude as big-endian bytes.
/// Trusted: recovery is Lagrange interpolation at 0, a function of the
/// shares and the prime; it asserts that exactly `threshold` shares are
/// given.
#[verifier::external_body]
fn shamir_recover(threshold: usize, share_amount: usize, prime: &str, shares: &[String]) -> (r: Vec<
    u8,
>)
    requires
        shares@.len() == threshold,
        bigint_text_ok(prime@),
        bigint_text_value(prime@) > 1,
        forall|i: int| 0 <= i < shares@.len() ==> bigint_text_ok(#[trigger] shares@[i]@),
    ensures
        r@ == shamir_recovered(prime@, texts(shares@)),
{
    let sss = shamir_secret_sharing::ShamirSecretSharing {
        threshold,
        share_amount,
        prime: BigInt::from_str(prime).unwrap(),
    };
    let points: Vec<(usize, BigInt)> = shares
        .iter()
        .enumerate()
        .map(|(i, s)| (i + 1, BigInt::parse_bytes(s.as_bytes(), 10).unwrap()))
        .collect();
    sss.recover(&points).to_bytes_be().1
}

/// Calls serde_json's `to_vec` on the chunks as objects with the one key
/// `shares`, then std's `String::from_utf8` on the JSON bytes. Trusted:
/// serde_json writes compact JSON, and share texts of digits need no
/// escapes.
#[verifier::external_body]
fn shares_to_json(chunks: &Vec<Vec<String>>) -> (r: String)
    requires
        forall|i: int| 0 <= i < chunks@.len() ==> plain_shares(texts(#[trigger] chunks@[i]@)),
    ensures
        r@ == json_shares_spec(share_views(chunks@)),
{
    let maps: Vec<HashMap<String, Vec<String>>> = chunks
        .iter()
        .map(|c| HashMap::from([("shares".to_string(), c.clone())]))
        .collect();
    String::from_utf8(serde_json::to_vec(&maps).unwrap()).unwrap()
}

/// serde_json's error.
#[verifier::external_type_specification]
#[verifier::external_body]
pub struct ExJsonError(serde_json::Error);

/// The fields of one parsed JSON object.
pub open spec fn object_views(o: Vec<(String, Vec<String>)>) -> Seq<(Seq<char>, Seq<Seq<char>>)> {
    o@.map_values(|f: (String, Vec<String>)| (f.0@, texts(f.1@)))
}

/// Calls serde_json's `from_str` for an array of objects whose values are
/// string arrays, and lists each object's fields. Trusted: serde_json reads
/// back what `to_vec` wrote. The order of an object's fields follows a
/// `HashMap` and is not stated.
#[verifier::external_body]
fn json_to_shares(text: &str) -> (r: Result<Vec<Vec<(String, Vec<String>)>>, serde_json::Error>)
    ensures
        forall|chunks: Seq<Seq<Seq<char>>>|
            #[trigger] json_shares_spec(chunks) == text@ && (forall|i: int|
                0 <= i < chunks.len() ==> plain_shares(#[trigger] chunks[i])) ==> (r is Ok
                && r->Ok_0@.len() == chunks.len() && forall|i: int|
                0 <= i < chunks.len() ==> object_views(#[trigger] r->Ok_0@[i]) == seq![
                    ("shares"@, chunks[i]),
                ]),
{
    let maps: Vec<HashMap<String, Vec<String>>> = serde_json::from_str(text)?;
    Ok(maps.into_iter().map(|m| m.into_iter().collect()).collect())
}

/// Calls serde_json's `Display` for its error. Nothing is stated of the
/// text.
#[verifier::external_body]
fn json_error_text(e: &serde_json::Error) -> String {
    e.to_string()
}

/// Name for what std's `String::from_utf8_lossy` gives for `bytes`.
pub uninterp spec fn utf8_lossy(bytes: Seq<u8>) -> Seq<char>;

/// Calls std's `String::from_utf8_lossy`. Trusted: std documents that
/// valid UTF-8 comes back as the text it encodes, and that other bytes
/// are replaced.
#[verifier::external_body]
fn from_utf8_lossy(bytes: &[u8]) -> (s: String)
    ensures
        s@ == utf8_lossy(bytes@),
        valid_utf8(bytes@) ==> s@ == decode_utf8(bytes@),
{
    String::from_utf8_lossy(bytes).into_owned()
}

/// `s` cut into pieces of `n` bytes, the last one shorter when `n` does
/// not divide its length.
pub open spec fn chunks_spec(s: Seq<u8>, n: nat) -> Seq<Seq<u8>>
    decreases s.len(),
{
    if s.len() == 0 || n == 0 {
        seq![]
    } else if s.len() <= n {
        seq![s]
    } else {
        seq![s.take(n as int)] + chunks_spec(s.skip(n as int), n)
    }
}

/// Cuts `secret` into pieces of `size` bytes.
pub fn chunk_bytes(secret: &[u8], size: usize) -> (r: Vec<Vec<u8>>)
    requires
        size > 0,
    ensures
        r@.map_values(|c: Vec<u8>| c@) == chunks_spec(secret@, size as nat),
{
    let mut out: Vec<Vec<u8>> = Vec::new();
    let mut start: usize = 0;
    let n = secret.len();
    assert(secret@.skip(0) =~= secret@);
    assert(out@.map_values(|c: Vec<u8>| c@) =~= Seq::<Seq<u8>>::empty());
    assert(Seq::<Seq<u8>>::empty() + chunks_spec(secret@, size as nat) =~= chunks_spec(
        secret@,
        size as nat,
    ));
    while start < n
        invariant
            start <= n,
            n == secret@.len(),
            size > 0,
            out@.map_values(|c: Vec<u8>| c@) + chunks_spec(secret@.skip(start as int), size as nat)
                == chunks_spec(secret@, size as nat),
        decreases n - start,
    {
        let ghost rest = secret@.skip(start as int);
        let end = if n - start <= size {
            n
        } else {
            start + size
        };
        let mut piece: Vec<u8> = Vec::new();
        crate::xdr::push_range(&mut piece, secret, start, end);
        proof {
            if n - start <= size {
                assert(piece@ =~= rest);
                assert(secret@.skip(end as int) =~= Seq::<u8>::empty());
                assert(chunks_spec(rest, size as nat) == seq![rest]);
            } else {
                assert(piece@ =~= rest.take(size as int));
                assert(rest.skip(size as int) =~= secret@.skip(end as int));
            }
        }
        let ghost before = out@.map_values(|c: Vec<u8>| c@);
        out.push(piece);
        assert(out@.map_values(|c: Vec<u8>| c@) =~= before.push(piece@));
        assert(before.push(piece@) + chunks_spec(secret@.skip(end as int), size as nat) =~= before
            + (seq![piece@] + chunks_spec(secret@.skip(end as int), size as nat)));
        start = end;
    }
    assert(secret@.skip(n as int) =~= Seq::<u8>::empty());
    assert(out@.map_values(|c: Vec<u8>| c@) + Seq::<Seq<u8>>::empty() =~= out@.map_values(
        |c: Vec<u8>| c@,
    ));
    out
}

/// The settings of the sharing: chunk size, how many shares rebuild a
/// chunk, how many are made, how many threads work, and the prime, as
/// decimal text.
pub struct Settings {
    pub chunk_size: usize,
    pub threshold: usize,
    pub share_amount: usize,
    pub thread_number: usize,
    pub prime: String,
}

/// The service that splits and joins files' text.
pub struct SecretSharingService {
    settings: Settings,
}

/// The shares listed under the key `shares` among an object's fields.
pub open spec fn shares_field(fields: Seq<(Seq<char>, Seq<Seq<char>>)>) -> Option<Seq<Seq<char>>>
    decreases fields.len(),
{
    if fields.len() == 0 {
        None
    } else if fields[0].0 == "shares"@ {
        Some(fields[0].1)
    } else {
        shares_field(fields.drop_first())
    }
}

/// Whether the shares of a chunk are used to rebuild it: there are at
/// least `threshold` of them.
pub open spec fn chunk_used(fields: Seq<(Seq<char>, Seq<Seq<char>>)>, threshold: nat) -> bool {
    shares_field(fields) matches Some(sh) && sh.len() >= threshold
}

/// The bytes rebuilt for one chunk: nothing when it has no shares or too
/// few, otherwise the secret its first `threshold` shares give.
pub open spec fn chunk_secret(
    prime: Seq<char>,
    threshold: nat,
    fields: Seq<(Seq<char>, Seq<Seq<char>>)>,
) -> Seq<u8> {
    match shares_field(fields) {
        Some(sh) => if sh.len() < threshold {
            seq![]
        } else {
            shamir_recovered(prime, sh.take(threshold as int))
        },
        None => seq![],
    }
}

/// The bytes rebuilt for all chunks, joined.
pub open spec fn document_secret(
    prime: Seq<char>,
    threshold: nat,
    doc: Seq<Seq<(Seq<char>, Seq<Seq<char>>)>>,
) -> Seq<u8>
    decreases doc.len(),
{
    if doc.len() == 0 {
        seq![]
    } else {
        document_secret(prime, threshold, doc.drop_last()) + chunk_secret(
            prime,
            threshold,
            doc.last(),
        )
    }
}

/// Whether every share of every used chunk reads as a big integer.
pub open spec fn document_readable(threshold: nat, doc: Seq<Seq<(Seq<char>, Seq<Seq<char>>)>>) -> bool {
    forall|i: int, j: int|
        0 <= i < doc.len() && chunk_used(doc[i], threshold) && 0 <= j < shares_field(
            doc[i],
        )->Some_0.len() ==> bigint_text_ok(#[trigger] shares_field(doc[i])->Some_0[j])
}

/// The objects of a parsed document.
pub open spec fn document_views(doc: Seq<Vec<(String, Vec<String>)>>) -> Seq<
    Seq<(Seq<char>, Seq<Seq<char>>)>,
> {
    doc.map_values(|o: Vec<(String, Vec<String>)>| object_views(o))
}

/// Whether `s` reads as a big integer.
pub fn bigint_text_check(s: &str) -> (b: bool)
    ensures
        b == bigint_text_ok(s@),
{
    let v = chars_of(s);
    let neg = v.len() > 0 && v[0] == '-' && !(v.len() > 1 && v[1] == '+');
    let start1: usize = if neg {
        1
    } else {
        0
    };
    let ghost a = if neg {
        v@.drop_first()
    } else {
        v@
    };
    assert(a =~= v@.skip(start1 as int));
    let plus = start1 < v.len() && v[start1] == '+' && !(start1 + 1 < v.len() && v[start1 + 1]
        == '+');
    proof {
        if start1 < v.len() {
            assert(a[0] == v@[start1 as int]);
        }
        if start1 + 1 < v.len() {
            assert(a[1] == v@[start1 + 1]);
        }
    }
    let start: usize = if plus {
        start1 + 1
    } else {
        start1
    };
    let ghost d = if plus {
        a.drop_first()
    } else {
        a
    };
    assert(d =~= v@.skip(start as int));
    assert(d == bigint_digits(s@));
    if start >= v.len() || v[start] == '_' {
        return false;
    }
    let mut i = start;
    while i < v.len()
        invariant
            start <= i <= v.len(),
            d == v@.skip(start as int),
            d == bigint_digits(s@),
            forall|k: int| 0 <= k < i - start ==> ('0' <= #[trigger] d[k] && d[k] <= '9') || d[k]
                == '_',
        decreases v.len() - i,
    {
        let c = v[i];
        if !(('0' <= c && c <= '9') || c == '_') {
            assert(d[i - start] == c);
            assert(!(('0' <= d[i - start] && d[i - start] <= '9') || d[i - start] == '_'));
            return false;
        }
        i += 1;
    }
    true
}

fn find_shares(fields: &Vec<(String, Vec<String>)>) -> (r: Option<usize>)
    ensures
        r matches Some(i) ==> i < fields@.len() && shares_field(object_views(*fields)) == Some(
            texts(fields@[i as int].1@),
        ),
        r is None ==> shares_field(object_views(*fields)) is None,
{
    let ghost all = object_views(*fields);
    let mut i: usize = 0;
    assert(all.skip(0) =~= all);
    while i < fields.len()
        invariant
            i <= fields.len(),
            all == object_views(*fields),
            shares_field(all) == shares_field(all.skip(i as int)),
        decreases fields.len() - i,
    {
        assert(all.skip(i as int)[0] == (fields@[i as int].0@, texts(fields@[i as int].1@)));
        if str_eq(fields[i].0.as_str(), "shares") {
            return Some(i);
        }
        assert(all.skip(i as int).drop_first() =~= all.skip(i + 1));
        i += 1;
    }
    None
}

impl SecretSharingService {
    /// The service with the given settings.
    pub fn new(settings: Settings) -> (s: SecretSharingService)
        ensures
            s.chunk_size() == settings.chunk_size,
            s.threshold() == settings.threshold,
            s.share_amount() == settings.share_amount,
            s.prime() == settings.prime@,
    {
        SecretSharingService { settings }
    }

    /// The chunk size.
    pub closed spec fn chunk_size(&self) -> nat {
        self.settings.chunk_size as nat
    }

    /// How many shares rebuild a chunk.
    pub closed spec fn threshold(&self) -> nat {
        self.settings.threshold as nat
    }

    /// How many shares are made of a chunk.
    pub closed spec fn share_amount(&self) -> nat {
        self.settings.share_amount as nat
    }

    /// The prime's text.
    pub closed spec fn prime(&self) -> Seq<char> {
        self.settings.prime@
    }

    /// Whether the settings allow sharing: chunks of at least one byte,
    /// at least one share needed and more made than needed, and a prime
    /// above 1.
    pub open spec fn usable(&self) -> bool {
        &&& self.chunk_size() > 0
        &&& 1 <= self.threshold() < self.share_amount()
        &&& bigint_text_ok(self.prime())
        &&& bigint_text_value(self.prime()) > 1
    }

    /// Whether `chunks` are share lists that splitting the bytes `bytes`
    /// may give: one list per chunk of `bytes`, each of `share_amount`
    /// plain decimal shares, whose first `threshold` give the chunk's number
    /// back, as its big-endian bytes without leading zeros, whenever the
    /// sharing of that chunk is exact.
    pub open spec fn shares_of(&self, bytes: Seq<u8>, chunks: Seq<Seq<Seq<char>>>) -> bool {
        let pieces = chunks_spec(bytes, self.chunk_size());
        &&& chunks.len() == pieces.len()
        &&& forall|i: int|
            0 <= i < chunks.len() ==> (#[trigger] chunks[i]).len() == self.share_amount()
                && plain_shares(chunks[i])
        &&& forall|i: int|
            0 <= i < chunks.len() ==> exact_sharing(
                bigint_text_value(self.prime()),
                self.threshold(),
                #[trigger] pieces[i],
            ) ==> shamir_recovered(self.prime(), chunks[i].take(self.threshold() as int))
                == minimal_be(be_value(pieces[i]))
    }

    /// Splits `secret`: its bytes are cut into chunks, each chunk's number
    /// is split into `share_amount` decimal shares, and the shares are
    /// written as a JSON array with one `{"shares": [...]}` object per
    /// chunk. It never fails; the shares are random.
    pub fn dis_assembly(&self, secret: &str) -> (r: Result<String, String>)
        requires
            self.usable(),
        ensures
            r matches Ok(text) && exists|chunks: Seq<Seq<Seq<char>>>|
                #[trigger] json_shares_spec(chunks) == text@ && self.shares_of(
                    vstd::utf8::encode_utf8(secret@),
                    chunks,
                ),
    {
        let bytes = secret.as_bytes_vec();
        let chunks = chunk_bytes(bytes.as_slice(), self.settings.chunk_size);
        let mut all: Vec<Vec<String>> = Vec::new();
        let mut i: usize = 0;
        while i < chunks.len()
            invariant
                self.usable(),
                i <= chunks@.len(),
                all@.len() == i,
                chunks@.map_values(|c: Vec<u8>| c@) == chunks_spec(bytes@, self.chunk_size()),
                forall|k: int|
                    0 <= k < i ==> (#[trigger] all@[k])@.len() == self.share_amount() && plain_shares(
                        texts(all@[k]@),
                    ),
                forall|k: int|
                    0 <= k < i ==> exact_sharing(
                        bigint_text_value(self.prime()),
                        self.threshold(),
                        chunks@[k]@,
                    ) ==> shamir_recovered(self.prime(), texts((#[trigger] all@[k])@).take(
                        self.threshold() as int,
                    )) == minimal_be(be_value(chunks@[k]@)),
            decreases chunks@.len() - i,
        {
            let shares = shamir_split(
                self.settings.threshold,
                self.settings.share_amount,
                self.settings.prime.as_str(),
                chunks[i].as_slice(),
            );
            all.push(shares);
            i += 1;
        }
        let text = shares_to_json(&all);
        proof {
            let cs = share_views(all@);
            let pieces = chunks_spec(bytes@, self.chunk_size());
            assert forall|k: int| 0 <= k < cs.len() implies (#[trigger] cs[k]).len()
                == self.share_amount() && plain_shares(cs[k]) by {
                assert(cs[k] == texts(all@[k]@));
            }
            assert forall|k: int|
                0 <= k < cs.len() && exact_sharing(
                    bigint_text_value(self.prime()),
                    self.threshold(),
                    #[trigger] pieces[k],
                ) implies shamir_recovered(self.prime(), cs[k].take(self.threshold() as int))
                == minimal_be(be_value(pieces[k])) by {
                assert(cs[k] == texts(all@[k]@));
                assert(pieces[k] == chunks@.map_values(|c: Vec<u8>| c@)[k]);
            }
            assert(chunks@.len() == chunks@.map_values(|c: Vec<u8>| c@).len());
            assert(bytes@ == vstd::utf8::encode_utf8(secret@));
            assert(self.shares_of(vstd::utf8::encode_utf8(secret@), cs));
        }
        Ok(text)
    }

    /// Rebuilds the bytes of a parsed document: for each chunk object its
    /// `shares`, when there are at least `threshold`, give the chunk's
    /// bytes through their first `threshold`; the bytes of all chunks are
    /// joined.
    pub fn rebuild_document(&self, doc: &Vec<Vec<(String, Vec<String>)>>) -> (r: Vec<u8>)
        requires
            self.usable(),
            document_readable(self.threshold(), document_views(doc@)),
        ensures
            r@ == document_secret(self.prime(), self.threshold(), document_views(doc@)),
    {
        let ghost dv = document_views(doc@);
        let mut out: Vec<u8> = Vec::new();
        let mut i: usize = 0;
        while i < doc.len()
            invariant
                self.usable(),
                i <= doc@.len(),
                dv == document_views(doc@),
                document_readable(self.threshold(), dv),
                out@ == document_secret(self.prime(), self.threshold(), dv.take(i as int)),
            decreases doc@.len() - i,
        {
            assert(dv.take(i + 1).drop_last() =~= dv.take(i as int));
            assert(dv.take(i + 1).last() == dv[i as int]);
            assert(dv[i as int] == object_views(doc@[i as int]));
            match find_shares(&doc[i]) {
                Some(k) => {
                    let shares = &doc[i][k].1;
                    if shares.len() >= self.settings.threshold {
                        proof {
                            assert(shares_field(dv[i as int]) == Some(texts(shares@)));
                            assert(chunk_used(dv[i as int], self.threshold()));
                            assert forall|m: int| 0 <= m < shares@.len() implies bigint_text_ok(
                                #[trigger] shares@[m]@,
                            ) by {
                                assert(texts(shares@)[m] == shares@[m]@);
                                assert(bigint_text_ok(shares_field(dv[i as int])->Some_0[m]));
                            }
                        }
                        let mut used: Vec<String> = Vec::new();
                        let mut j: usize = 0;
                        while j < self.settings.threshold
                            invariant
                                j <= self.settings.threshold <= shares@.len(),
                                texts(used@) == texts(shares@).take(j as int),
                                forall|m: int|
                                    0 <= m < shares@.len() ==> bigint_text_ok(
                                        #[trigger] shares@[m]@,
                                    ),
                                used@.len() == j,
                            decreases self.settings.threshold - j,
                        {
                            used.push(shares[j].clone());
                            assert(texts(used@) =~= texts(shares@).take(j + 1));
                            j += 1;
                        }
                        proof {
                            assert forall|m: int| 0 <= m < used@.len() implies bigint_text_ok(
                                #[trigger] used@[m]@,
                            ) by {
                                assert(texts(used@)[m] == used@[m]@);
                                assert(texts(shares@)[m] == shares@[m]@);
                            }
                        }
                        let piece = shamir_recover(
                            self.settings.threshold,
                            self.settings.share_amount,
                            self.settings.prime.as_str(),
                            used.as_slice(),
                        );
                        crate::xdr::push_bytes(&mut out, piece.as_slice());
                    }
                },
                None => {},
            }
            i += 1;
        }
        assert(dv.take(doc@.len() as int) =~= dv);
        out
    }
}

/// The document of single-field objects `{"shares": chunks[i]}`.
pub open spec fn shares_document(chunks: Seq<Seq<Seq<char>>>) -> Seq<
    Seq<(Seq<char>, Seq<Seq<char>>)>,
> {
    chunks.map_values(|c: Seq<Seq<char>>| seq![("shares"@, c)])
}

/// Plain decimal share text reads as a big integer.
proof fn lemma_plain_share_readable(sh: Seq<char>)
    requires
        sh.len() > 0,
        all_digits(sh),
    ensures
        bigint_text_ok(sh),
{
    assert('0' <= sh[0] && sh[0] <= '9');
    assert(bigint_digits(sh) == sh);
}

fn document_is_readable(doc: &Vec<Vec<(String, Vec<String>)>>, threshold: usize) -> (b: bool)
    ensures
        b == document_readable(threshold as nat, document_views(doc@)),
{
    let ghost dv = document_views(doc@);
    let mut i: usize = 0;
    while i < doc.len()
        invariant
            i <= doc@.len(),
            dv == document_views(doc@),
            forall|a: int, j: int|
                0 <= a < i && chunk_used(dv[a], threshold as nat) && 0 <= j < shares_field(
                    dv[a],
                )->Some_0.len() ==> bigint_text_ok(#[trigger] shares_field(dv[a])->Some_0[j]),
        decreases doc@.len() - i,
    {
        assert(dv[i as int] == object_views(doc@[i as int]));
        match find_shares(&doc[i]) {
            Some(k) => {
                let shares = &doc[i][k].1;
                if shares.len() >= threshold {
                    let mut j: usize = 0;
                    while j < shares.len()
                        invariant
                            j <= shares@.len(),
                            i < doc@.len(),
                            dv == document_views(doc@),
                            shares_field(dv[i as int]) == Some(texts(shares@)),
                            shares@.len() >= threshold,
                            forall|m: int| 0 <= m < j ==> bigint_text_ok(#[trigger] shares@[m]@),
                        decreases shares@.len() - j,
                    {
                        if !bigint_text_check(shares[j].as_str()) {
                            proof {
                                assert(texts(shares@)[j as int] == shares@[j as int]@);
                                assert(shares_field(dv[i as int])->Some_0[j as int]
                                    == shares@[j as int]@);
                            }
                            return false;
                        }
                        j += 1;
                    }
                    proof {
                        assert forall|m: int|
                            0 <= m < shares_field(dv[i as int])->Some_0.len() implies bigint_text_ok(
                            #[trigger] shares_field(dv[i as int])->Some_0[m],
                        ) by {
                            assert(texts(shares@)[m] == shares@[m]@);
                        }
                    }
                }
            },
            None => {},
        }
        i += 1;
    }
    true
}

impl SecretSharingService {
    /// Joins a stored document back into text: the JSON is read, every
    /// share of every chunk with enough shares must read as a number, the
    /// chunks' bytes are rebuilt and joined, and the bytes are read as
    /// UTF-8 with invalid sequences replaced. Unreadable JSON gives its
    /// parse error; a share that is not a number gives `Invalid share
    /// format`. A document written by `dis_assembly` is always read back.
    pub fn re_assembly(&self, stored: &str) -> (r: Result<String, String>)
        requires
            self.usable(),
        ensures
            r matches Ok(text) ==> exists|doc: Seq<Seq<(Seq<char>, Seq<Seq<char>>)>>|
                text@ == utf8_lossy(#[trigger] document_secret(self.prime(), self.threshold(), doc)),
            forall|chunks: Seq<Seq<Seq<char>>>|
                #[trigger] json_shares_spec(chunks) == stored@ && (forall|i: int|
                    0 <= i < chunks.len() ==> plain_shares(#[trigger] chunks[i])) ==> (r matches Ok(
                    text,
                ) && text@ == utf8_lossy(
                    document_secret(self.prime(), self.threshold(), shares_document(chunks)),
                ) && (valid_utf8(
                    document_secret(self.prime(), self.threshold(), shares_document(chunks)),
                ) ==> text@ == decode_utf8(
                    document_secret(self.prime(), self.threshold(), shares_document(chunks)),
                ))),
    {
        let doc = match json_to_shares(stored) {
            Ok(d) => d,
            Err(e) => return Err(json_error_text(&e)),
        };
        if !document_is_readable(&doc, self.settings.threshold) {
            proof {
                assert forall|chunks: Seq<Seq<Seq<char>>>|
                    #[trigger] json_shares_spec(chunks) == stored@ && (forall|i: int|
                        0 <= i < chunks.len() ==> plain_shares(#[trigger] chunks[i])) implies false by {
                    lemma_plain_document_readable(chunks, doc@, self.threshold());
                }
            }
            return Err("Invalid share format".to_owned());
        }
        let bytes = self.rebuild_document(&doc);
        let text = from_utf8_lossy(bytes.as_slice());
        proof {
            assert forall|chunks: Seq<Seq<Seq<char>>>|
                #[trigger] json_shares_spec(chunks) == stored@ && (forall|i: int|
                    0 <= i < chunks.len() ==> plain_shares(#[trigger] chunks[i])) implies text@
                == utf8_lossy(
                document_secret(self.prime(), self.threshold(), shares_document(chunks)),
            ) && (valid_utf8(
                document_secret(self.prime(), self.threshold(), shares_document(chunks)),
            ) ==> text@ == decode_utf8(
                document_secret(self.prime(), self.threshold(), shares_document(chunks)),
            )) by {
                assert(document_views(doc@) =~= shares_document(chunks));
            }
        }
        Ok(text)
    }

    /// Splits text into shares, its failure given as text: the JSON
    /// document of the shares of each chunk of the text's bytes, as
    /// `dis_assembly` writes it.
    pub fn disassemble(&self, secret: &str) -> (r: Result<String, String>)
        requires
            self.usable(),
        ensures
            r matches Ok(text) && exists|chunks: Seq<Seq<Seq<char>>>|
                #[trigger] json_shares_spec(chunks) == text@ && self.shares_of(
                    vstd::utf8::encode_utf8(secret@),
                    chunks,
                ),
    {
        self.dis_assembly(secret)
    }

    /// Joins shares back into text, its failure given as text.
    pub fn reassemble(&self, shares: &str) -> (r: Result<String, String>)
        requires
            self.usable(),
        ensures
            forall|chunks: Seq<Seq<Seq<char>>>|
                #[trigger] json_shares_spec(chunks) == shares@ && (forall|i: int|
                    0 <= i < chunks.len() ==> plain_shares(#[trigger] chunks[i])) ==> (r matches Ok(
                    text,
                ) && text@ == utf8_lossy(
                    document_secret(self.prime(), self.threshold(), shares_document(chunks)),
                ) && (valid_utf8(
                    document_secret(self.prime(), self.threshold(), shares_document(chunks)),
                ) ==> text@ == decode_utf8(
                    document_secret(self.prime(), self.threshold(), shares_document(chunks)),
                ))),
    {
        self.re_assembly(shares)
    }
}

/// A document read from text that `dis_assembly` wrote has only readable
/// shares.
proof fn lemma_plain_document_readable(
    chunks: Seq<Seq<Seq<char>>>,
    doc: Seq<Vec<(String, Vec<String>)>>,
    threshold: nat,
)
    requires
        forall|i: int| 0 <= i < chunks.len() ==> plain_shares(#[trigger] chunks[i]),
        doc.len() == chunks.len(),
        forall|i: int|
            0 <= i < chunks.len() ==> object_views(#[trigger] doc[i]) == seq![("shares"@, chunks[i])],
    ensures
        document_readable(threshold, document_views(doc)),
{
    let dv = document_views(doc);
    assert forall|a: int, j: int|
        0 <= a < dv.len() && chunk_used(dv[a], threshold) && 0 <= j < shares_field(
            dv[a],
        )->Some_0.len() implies bigint_text_ok(#[trigger] shares_field(dv[a])->Some_0[j]) by {
        assert(dv[a] == object_views(doc[a]));
        assert(shares_field(dv[a]) == Some(chunks[a]));
        assert(plain_shares(chunks[a]));
        lemma_plain_share_readable(chunks[a][j]);
    }
}

/// The pieces of `cs`, one after another.
pub open spec fn flatten(cs: Seq<Seq<u8>>) -> Seq<u8>
    decreases cs.len(),
{
    if cs.len() == 0 {
        seq![]
    } else {
        flatten(cs.drop_last()) + cs.last()
    }
}

proof fn lemma_flatten_concat(a: Seq<Seq<u8>>, b: Seq<Seq<u8>>)
    ensures
        flatten(a + b) == flatten(a) + flatten(b),
    decreases b.len(),
{
    if b.len() == 0 {
        assert(a + b =~= a);
        assert(flatten(a) + flatten(b) =~= flatten(a));
    } else {
        assert((a + b).drop_last() =~= a + b.drop_last());
        lemma_flatten_concat(a, b.drop_last());
        assert(flatten(a + b) =~= flatten(a) + flatten(b));
    }
}

proof fn lemma_flatten_single(x: Seq<u8>)
    ensures
        flatten(seq![x]) == x,
{
    let e = seq![x];
    assert(e.drop_last() =~= Seq::<Seq<u8>>::empty());
    assert(flatten(e.drop_last()) == Seq::<u8>::empty());
    assert(e.last() == x);
    assert(flatten(e) == flatten(e.drop_last()) + e.last());
    assert(Seq::<u8>::empty() + x =~= x);
}

/// Cutting bytes into pieces and joining the pieces gives the bytes back;
/// every piece holds at least one byte.
proof fn lemma_chunks_rejoin(b: Seq<u8>, n: nat)
    requires
        n > 0,
    ensures
        flatten(chunks_spec(b, n)) == b,
        forall|i: int| 0 <= i < chunks_spec(b, n).len() ==> (#[trigger] chunks_spec(b, n)[i]).len() > 0,
    decreases b.len(),
{
    if b.len() == 0 {
    } else if b.len() <= n {
        lemma_flatten_single(b);
    } else {
        let rest = chunks_spec(b.skip(n as int), n);
        lemma_chunks_rejoin(b.skip(n as int), n);
        lemma_flatten_concat(seq![b.take(n as int)], rest);
        lemma_flatten_single(b.take(n as int));
        assert(b.take(n as int) + b.skip(n as int) =~= b);
        assert forall|i: int| 0 <= i < chunks_spec(b, n).len() implies (#[trigger] chunks_spec(
            b,
            n,
        )[i]).len() > 0 by {
            if i > 0 {
                assert(chunks_spec(b, n)[i] == rest[i - 1]);
            }
        }
    }
}

/// Bytes that do not start with a zero come back from their number as
/// they were.
proof fn lemma_minimal_be_of_value(c: Seq<u8>)
    requires
        c.len() > 0,
        c[0] != 0,
    ensures
        minimal_be(be_value(c)) == c,
        be_value(c) > 0,
    decreases c.len(),
{
    if c.len() == 1 {
        assert(c.drop_last() =~= Seq::<u8>::empty());
        assert(minimal_be(be_value(c)) =~= c);
    } else {
        let t = c.drop_last();
        assert(t[0] == c[0]);
        lemma_minimal_be_of_value(t);
        let v = be_value(c);
        assert(v == be_value(t) * 256 + (c.last() as nat));
        assert(v >= 256);
        assert(v / 256 == be_value(t) && v % 256 == c.last() as nat) by (nonlinear_arith)
            requires
                v == be_value(t) * 256 + (c.last() as nat),
                (c.last() as nat) < 256,
        ;
        assert(t.push(c.last()) =~= c);
    }
}

/// Text split by `dis_assembly` is joined back unchanged by
/// `re_assembly`: the bytes rebuilt from the stored shares are the text's
/// UTF-8 bytes, which read back as the text. This holds whenever every
/// chunk of the text is shared exactly (a prime above the threshold, and a
/// number below the prime) and does not start with a zero byte, which its
/// number could not keep.
pub proof fn lemma_split_then_join(
    svc: SecretSharingService,
    secret: Seq<char>,
    chunks: Seq<Seq<Seq<char>>>,
)
    requires
        svc.usable(),
        svc.shares_of(encode_utf8(secret), chunks),
        forall|i: int|
            0 <= i < chunks_spec(encode_utf8(secret), svc.chunk_size()).len() ==> exact_sharing(
                bigint_text_value(svc.prime()),
                svc.threshold(),
                #[trigger] chunks_spec(encode_utf8(secret), svc.chunk_size())[i],
            ) && chunks_spec(encode_utf8(secret), svc.chunk_size())[i][0] != 0,
    ensures
        document_secret(svc.prime(), svc.threshold(), shares_document(chunks)) == encode_utf8(
            secret,
        ),
        valid_utf8(encode_utf8(secret)),
        decode_utf8(encode_utf8(secret)) == secret,
{
    let bytes = encode_utf8(secret);
    let pieces = chunks_spec(bytes, svc.chunk_size());
    let docs = shares_document(chunks);
    lemma_chunks_rejoin(bytes, svc.chunk_size());
    assert forall|k: int| 0 <= k <= chunks.len() implies document_secret(
        svc.prime(),
        svc.threshold(),
        #[trigger] docs.take(k),
    ) == flatten(pieces.take(k)) by {
        lemma_document_prefix(svc, pieces, chunks, k);
    }
    assert(docs.take(chunks.len() as int) =~= docs);
    assert(pieces.take(chunks.len() as int) =~= pieces);
    vstd::utf8::encode_utf8_valid_utf8(secret);
    vstd::utf8::encode_utf8_decode_utf8(secret);
}

proof fn lemma_document_prefix(
    svc: SecretSharingService,
    pieces: Seq<Seq<u8>>,
    chunks: Seq<Seq<Seq<char>>>,
    k: int,
)
    requires
        svc.usable(),
        0 <= k <= chunks.len(),
        chunks.len() == pieces.len(),
        forall|i: int| 0 <= i < pieces.len() ==> (#[trigger] pieces[i]).len() > 0,
        forall|i: int|
            0 <= i < chunks.len() ==> (#[trigger] chunks[i]).len() == svc.share_amount(),
        forall|i: int|
            0 <= i < chunks.len() ==> exact_sharing(
                bigint_text_value(svc.prime()),
                svc.threshold(),
                #[trigger] pieces[i],
            ) ==> shamir_recovered(svc.prime(), chunks[i].take(svc.threshold() as int))
                == minimal_be(be_value(pieces[i])),
        forall|i: int|
            0 <= i < pieces.len() ==> exact_sharing(
                bigint_text_value(svc.prime()),
                svc.threshold(),
                #[trigger] pieces[i],
            ) && pieces[i][0] != 0,
    ensures
        document_secret(svc.prime(), svc.threshold(), shares_document(chunks).take(k)) == flatten(
            pieces.take(k),
        ),
    decreases k,
{
    let docs = shares_document(chunks);
    if k == 0 {
        assert(docs.take(0) =~= Seq::<Seq<(Seq<char>, Seq<Seq<char>>)>>::empty());
        assert(pieces.take(0) =~= Seq::<Seq<u8>>::empty());
    } else {
        lemma_document_prefix(svc, pieces, chunks, k - 1);
        assert(docs.take(k).drop_last() =~= docs.take(k - 1));
        assert(pieces.take(k).drop_last() =~= pieces.take(k - 1));
        let c = chunks[k - 1];
        let pc = pieces[k - 1];
        assert(docs.take(k).last() == seq![("shares"@, c)]);
        assert(shares_field(seq![("shares"@, c)]) == Some(c));
        assert(exact_sharing(bigint_text_value(svc.prime()), svc.threshold(), pc) && pc[0] != 0);
        lemma_minimal_be_of_value(pc);
        assert(chunk_secret(svc.prime(), svc.threshold(), docs.take(k).last()) == pc);
        assert(pieces.take(k).last() == pc);
    }
}

} // verus!
