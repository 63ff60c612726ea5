//! The Poseidon-style hash that seals audit events: one round of the
//! permutation over three elements of the BN254 scalar field.
//!
//! Field elements are kept as the 32 little-endian bytes of their canonical
//! value; the field arithmetic itself is arkworks'.

use vstd::prelude::*;
use ark_ff::{Field, PrimeField};
use ark_serialize::{CanonicalDeserialize, CanonicalSerialize};
use vstd::arithmetic::power::pow;

verus! {

/// The order of the BN254 scalar field.
pub open spec fn field_modulus() -> int {
    21888242871839275222246405745257275088548364400416034343698204186575808495617int
}

/// The number that the bytes `b` spell in little-endian order.
pub open spec fn le_value(b: Seq<u8>) -> int
    decreases b.len(),
{
    if b.len() == 0 {
        0
    } else {
        b[0] + 256 * le_value(b.drop_first())
    }
}

/// The number that the bytes `b` spell in big-endian order.
pub open spec fn be_value(b: Seq<u8>) -> int
    decreases b.len(),
{
    if b.len() == 0 {
        0
    } else {
        be_value(b.drop_last()) * 256 + b.last()
    }
}

/// Whether `b` is the canonical encoding of a field element: 32 bytes
/// whose little-endian value is below the modulus.
pub open spec fn is_element(b: Seq<u8>) -> bool {
    b.len() == 32 && le_value(b) < field_modulus()
}

/// Calls arkworks' `PrimeField::from_be_bytes_mod_order` on BN254's `Fr`
/// and `CanonicalSerialize::serialize_compressed`. Trusted: the first reads
/// the bytes as a big-endian number and reduces it modulo the field order;
/// the second writes the canonical value as 32 little-endian bytes.
#[verifier::external_body]
fn element_from_be_bytes(bytes: &[u8]) -> (r: Vec<u8>)
    ensures
        is_element(r@),
        le_value(r@) == be_value(bytes@) % field_modulus(),
{
    let x = ark_bn254::Fr::from_be_bytes_mod_order(bytes);
    let mut out = Vec::new();
    x.serialize_compressed(&mut out).unwrap();
    out
}

/// Calls arkworks' `From<u64>` for BN254's `Fr` and
/// `CanonicalSerialize::serialize_compressed`. Trusted: the element is the
/// number itself, reduced modulo the field order, written as 32
/// little-endian bytes.
#[verifier::external_body]
fn element_from_u64(n: u64) -> (r: Vec<u8>)
    ensures
        is_element(r@),
        le_value(r@) == n as int % field_modulus(),
{
    let x = ark_bn254::Fr::from(n);
    let mut out = Vec::new();
    x.serialize_compressed(&mut out).unwrap();
    out
}

/// Calls arkworks' addition on BN254's `Fr`, between
/// `CanonicalDeserialize::deserialize_compressed` of the operands and
/// `serialize_compressed` of the sum. Trusted: canonical encodings read back
/// as their values, and the sum is taken modulo the field order.
#[verifier::external_body]
fn element_add(a: &Vec<u8>, b: &Vec<u8>) -> (r: Vec<u8>)
    requires
        is_element(a@),
        is_element(b@),
    ensures
        is_element(r@),
        le_value(r@) == (le_value(a@) + le_value(b@)) % field_modulus(),
{
    let x = ark_bn254::Fr::deserialize_compressed(a.as_slice()).unwrap();
    let y = ark_bn254::Fr::deserialize_compressed(b.as_slice()).unwrap();
    let mut out = Vec::new();
    (x + y).serialize_compressed(&mut out).unwrap();
    out
}

/// Calls arkworks' multiplication on BN254's `Fr`, between
/// `deserialize_compressed` of the operands and `serialize_compressed` of
/// the product. Trusted: the product is taken modulo the field order.
#[verifier::external_body]
fn element_mul(a: &Vec<u8>, b: &Vec<u8>) -> (r: Vec<u8>)
    requires
        is_element(a@),
        is_element(b@),
    ensures
        is_element(r@),
        le_value(r@) == (le_value(a@) * le_value(b@)) % field_modulus(),
{
    let x = ark_bn254::Fr::deserialize_compressed(a.as_slice()).unwrap();
    let y = ark_bn254::Fr::deserialize_compressed(b.as_slice()).unwrap();
    let mut out = Vec::new();
    (x * y).serialize_compressed(&mut out).unwrap();
    out
}

/// Calls arkworks' `Field::pow` on BN254's `Fr`, between
/// `deserialize_compressed` and `serialize_compressed`. Trusted: the power
/// is taken modulo the field order.
#[verifier::external_body]
fn element_pow(a: &Vec<u8>, e: u64) -> (r: Vec<u8>)
    requires
        is_element(a@),
    ensures
        is_element(r@),
        le_value(r@) == pow(le_value(a@), e as nat) % field_modulus(),
{
    let x = ark_bn254::Fr::deserialize_compressed(a.as_slice()).unwrap();
    let mut out = Vec::new();
    x.pow([e]).serialize_compressed(&mut out).unwrap();
    out
}

/// The number of rounds the constants are generated for.
pub const ROUNDS: usize = 65;

/// The width of the permutation's state.
pub const WIDTH: usize = 3;

/// The S-box: the fifth power.
pub open spec fn sbox(x: int) -> int {
    pow(x, 5) % field_modulus()
}

/// Output `i` of one round on the state `(s0, s1, s2)`: add the first
/// round's constants `0, 1, 2`, apply the S-box, and mix with the row
/// `3i+1, 3i+2, 3i+3` of the matrix.
pub open spec fn permute_spec(s0: int, s1: int, s2: int, i: int) -> int {
    let p = field_modulus();
    let b0 = sbox(s0 % p);
    let b1 = sbox((s1 + 1) % p);
    let b2 = sbox((s2 + 2) % p);
    (b0 * (3 * i + 1) + b1 * (3 * i + 2) + b2 * (3 * i + 3)) % p
}

/// The hash of an event's bytes: output 0 of the round on the bytes'
/// big-endian value and two zeros.
pub open spec fn leaf_hash_spec(data: Seq<u8>) -> int {
    permute_spec(be_value(data) % field_modulus(), 0, 0, 0)
}

/// The hash joining two hashes: output 0 of the round on their big-endian
/// values and a zero.
pub open spec fn node_hash_spec(left: Seq<u8>, right: Seq<u8>) -> int {
    permute_spec(
        be_value(left) % field_modulus(),
        be_value(right) % field_modulus(),
        0,
        0,
    )
}

/// The hasher: its initial state and its round and mixing constants.
pub struct PoseidonHasher {
    state: Vec<Vec<u8>>,
    round_constants: Vec<Vec<Vec<u8>>>,
    mds_matrix: Vec<Vec<Vec<u8>>>,
}

/// Whether `row` holds the elements `base`, `base + 1`, `base + 2`.
pub open spec fn consecutive_row(row: Seq<Vec<u8>>, base: int) -> bool {
    &&& row.len() == 3
    &&& forall|j: int|
        0 <= j < 3 ==> is_element(#[trigger] row[j]@) && le_value(row[j]@) == base + j
}

impl PoseidonHasher {
    /// The hasher's invariant: the state is zero, round `i`'s constants are
    /// `3i, 3i+1, 3i+2`, and row `i` of the matrix is `3i+1, 3i+2, 3i+3`.
    pub closed spec fn wf(&self) -> bool {
        &&& self.state@.len() == 3
        &&& forall|j: int|
            0 <= j < 3 ==> is_element(#[trigger] self.state@[j]@) && le_value(self.state@[j]@)
                == 0
        &&& self.round_constants@.len() == ROUNDS
        &&& forall|i: int|
            0 <= i < ROUNDS ==> consecutive_row(#[trigger] self.round_constants@[i]@, 3 * i)
        &&& self.mds_matrix@.len() == WIDTH
        &&& forall|i: int|
            0 <= i < WIDTH ==> consecutive_row(#[trigger] self.mds_matrix@[i]@, 3 * i + 1)
    }

    fn row(base: u64) -> (r: Vec<Vec<u8>>)
        requires
            base + 2 <= u64::MAX,
            base + 2 < field_modulus(),
        ensures
            consecutive_row(r@, base as int),
    {
        let mut r: Vec<Vec<u8>> = Vec::new();
        r.push(element_from_u64(base));
        r.push(element_from_u64(base + 1));
        r.push(element_from_u64(base + 2));
        proof {
            vstd::arithmetic::div_mod::lemma_small_mod(base as nat, field_modulus() as nat);
            vstd::arithmetic::div_mod::lemma_small_mod((base + 1) as nat, field_modulus() as nat);
            vstd::arithmetic::div_mod::lemma_small_mod((base + 2) as nat, field_modulus() as nat);
        }
        r
    }

    /// A hasher with a zero state and its fixed constants. It never fails.
    pub fn new() -> (r: Result<PoseidonHasher, crate::audit::events::AuditError>)
        ensures
            r matches Ok(h) && h.wf(),
    {
        let mut zero: Vec<Vec<u8>> = Vec::new();
        zero.push(element_from_u64(0));
        zero.push(element_from_u64(0));
        zero.push(element_from_u64(0));
        let mut round_constants: Vec<Vec<Vec<u8>>> = Vec::new();
        let mut i: u64 = 0;
        while i < ROUNDS as u64
            invariant
                i <= ROUNDS,
                round_constants@.len() == i,
                forall|k: int|
                    0 <= k < i ==> consecutive_row(#[trigger] round_constants@[k]@, 3 * k),
            decreases ROUNDS - i,
        {
            round_constants.push(Self::row(3 * i));
            i += 1;
        }
        let mut mds_matrix: Vec<Vec<Vec<u8>>> = Vec::new();
        let mut i: u64 = 0;
        while i < WIDTH as u64
            invariant
                i <= WIDTH,
                mds_matrix@.len() == i,
                forall|k: int| 0 <= k < i ==> consecutive_row(#[trigger] mds_matrix@[k]@, 3 * k + 1),
            decreases WIDTH - i,
        {
            mds_matrix.push(Self::row(3 * i + 1));
            i += 1;
        }
        proof {
            assert forall|j: int| 0 <= j < 3 implies is_element(#[trigger] zero@[j]@) && le_value(
                zero@[j]@,
            ) == 0 by {
                vstd::arithmetic::div_mod::lemma_small_mod(0, field_modulus() as nat);
            }
        }
        let h = PoseidonHasher { state: zero, round_constants, mds_matrix };
        Ok(h)
    }
    /// Row `i` of the mixing: `b0 (3i+1) + b1 (3i+2) + b2 (3i+3)`.
    fn mix_row(&self, b0: &Vec<u8>, b1: &Vec<u8>, b2: &Vec<u8>, i: usize) -> (r: Vec<u8>)
        requires
            self.wf(),
            i < WIDTH,
            is_element(b0@),
            is_element(b1@),
            is_element(b2@),
        ensures
            is_element(r@),
            le_value(r@) == (le_value(b0@) * (3 * i + 1) + le_value(b1@) * (3 * i + 2) + le_value(
                b2@,
            ) * (3 * i + 3)) % field_modulus(),
    {
        let m = &self.mds_matrix[i];
        assert(consecutive_row(self.mds_matrix@[i as int]@, 3 * i + 1));
        let zero = element_from_u64(0);
        let t0 = element_mul(b0, &m[0]);
        let acc = element_add(&zero, &t0);
        let t1 = element_mul(b1, &m[1]);
        let acc = element_add(&acc, &t1);
        let t2 = element_mul(b2, &m[2]);
        let r = element_add(&acc, &t2);
        proof {
            let p = field_modulus();
            let x0 = le_value(b0@) * (3 * i + 1);
            let x1 = le_value(b1@) * (3 * i + 2);
            let x2 = le_value(b2@) * (3 * i + 3);
            vstd::arithmetic::div_mod::lemma_small_mod(0, p as nat);
            vstd::arithmetic::div_mod::lemma_mod_bound(x0, p);
            vstd::arithmetic::div_mod::lemma_small_mod((x0 % p) as nat, p as nat);
            vstd::arithmetic::div_mod::lemma_add_mod_noop(x0, x1, p);
            vstd::arithmetic::div_mod::lemma_add_mod_noop(x0 + x1, x2, p);
        }
        r
    }

    /// One round of the permutation on a state of three elements: add the
    /// first round's constants, raise each to the fifth power, and mix.
    pub fn permute(&self, state: &Vec<Vec<u8>>) -> (r: Vec<Vec<u8>>)
        requires
            self.wf(),
            state@.len() == WIDTH,
            forall|j: int| 0 <= j < WIDTH ==> is_element(#[trigger] state@[j]@),
        ensures
            r@.len() == WIDTH,
            forall|i: int|
                0 <= i < WIDTH ==> is_element(#[trigger] r@[i]@) && le_value(r@[i]@)
                    == permute_spec(
                    le_value(state@[0]@),
                    le_value(state@[1]@),
                    le_value(state@[2]@),
                    i,
                ),
    {
        let c = &self.round_constants[0];
        assert(consecutive_row(self.round_constants@[0]@, 0));
        let a0 = element_add(&state[0], &c[0]);
        let a1 = element_add(&state[1], &c[1]);
        let a2 = element_add(&state[2], &c[2]);
        let b0 = element_pow(&a0, 5);
        let b1 = element_pow(&a1, 5);
        let b2 = element_pow(&a2, 5);
        let mut out: Vec<Vec<u8>> = Vec::new();
        let mut i: usize = 0;
        while i < WIDTH
            invariant
                self.wf(),
                i <= WIDTH,
                out@.len() == i,
                is_element(b0@),
                is_element(b1@),
                is_element(b2@),
                le_value(b0@) == sbox(le_value(state@[0]@) % field_modulus()),
                le_value(b1@) == sbox((le_value(state@[1]@) + 1) % field_modulus()),
                le_value(b2@) == sbox((le_value(state@[2]@) + 2) % field_modulus()),
                forall|k: int|
                    0 <= k < i ==> is_element(#[trigger] out@[k]@) && le_value(out@[k]@)
                        == permute_spec(
                        le_value(state@[0]@),
                        le_value(state@[1]@),
                        le_value(state@[2]@),
                        k,
                    ),
            decreases WIDTH - i,
        {
            out.push(self.mix_row(&b0, &b1, &b2, i));
            i += 1;
        }
        out
    }

    /// The hash of an event's bytes.
    pub fn hash_leaf(&self, data: &[u8]) -> (r: Vec<u8>)
        requires
            self.wf(),
        ensures
            is_element(r@),
            le_value(r@) == leaf_hash_spec(data@),
    {
        let e = element_from_be_bytes(data);
        let mut state: Vec<Vec<u8>> = Vec::new();
        state.push(e);
        state.push(self.state[1].clone());
        state.push(self.state[2].clone());
        let out = self.permute(&state);
        proof {
            vstd::arithmetic::div_mod::lemma_mod_bound(be_value(data@), field_modulus());
            vstd::arithmetic::div_mod::lemma_small_mod(
                (be_value(data@) % field_modulus()) as nat,
                field_modulus() as nat,
            );
        }
        out[0].clone()
    }

    /// The hash joining two hashes.
    pub fn hash_nodes(&self, left: &[u8], right: &[u8]) -> (r: Vec<u8>)
        requires
            self.wf(),
        ensures
            is_element(r@),
            le_value(r@) == node_hash_spec(left@, right@),
    {
        let l = element_from_be_bytes(left);
        let rt = element_from_be_bytes(right);
        let mut state: Vec<Vec<u8>> = Vec::new();
        state.push(l);
        state.push(rt);
        state.push(self.state[2].clone());
        let out = self.permute(&state);
        proof {
            vstd::arithmetic::div_mod::lemma_mod_bound(be_value(left@), field_modulus());
            vstd::arithmetic::div_mod::lemma_small_mod(
                (be_value(left@) % field_modulus()) as nat,
                field_modulus() as nat,
            );
        }
        out[0].clone()
    }
}

} // verus!
