use vstd::prelude::*;

use crate::bits::{
    bits_msb, bits_to_bytes, bytes_to_bits, lemma_bits_msb_injective, lemma_bits_msb_shape,
};
use crate::digest::{sha256_digest, sha256_of, DIGEST_BYTES};

verus! {

/// Number of input wires of the SHA-256 circuit: a hundred-byte message.
pub const INPUT_LEN: usize = 800;

/// Number of output wires of the SHA-256 circuit: one per digest bit.
pub const OUTPUT_LEN: usize = 256;

/// Every entry is a bit, `0` or `1`.
pub open spec fn is_bits(s: Seq<u32>) -> bool {
    forall|k: int| 0 <= k < s.len() ==> s[k] <= 1
}

/// The input and output bits agree with some message and its SHA-256 digest.
pub open spec fn consistent(input: Seq<u32>, output: Seq<u32>) -> bool {
    exists|d: Seq<u8>| input == bits_msb(d) && output == bits_msb(sha256_of(d))
}

/// Values for the circuit's declared wires: the message bits on `input`, the
/// claimed digest bits on `output`, both most significant bit first per byte.
pub struct Sha256Assignment {
    pub input: Vec<u32>,
    pub output: Vec<u32>,
}

fn copy_bits(v: &Vec<u32>) -> (r: Vec<u32>)
    ensures
        r@ == v@,
{
    let mut r: Vec<u32> = Vec::new();
    let mut i: usize = 0;
    while i < v.len()
        invariant
            i <= v.len(),
            r@ == v@.subrange(0, i as int),
        decreases v.len() - i,
    {
        r.push(v[i]);
        i += 1;
        assert(r@ =~= v@.subrange(0, i as int));
    }
    assert(r@ =~= v@);
    r
}

fn all_bits(v: &Vec<u32>) -> (r: bool)
    ensures
        r == is_bits(v@),
{
    let mut i: usize = 0;
    while i < v.len()
        invariant
            i <= v.len(),
            forall|k: int| 0 <= k < i ==> v[k] <= 1,
        decreases v.len() - i,
    {
        if v[i] > 1 {
            return false;
        }
        i += 1;
    }
    true
}

fn same_bits(a: &Vec<u32>, b: &Vec<u32>) -> (r: bool)
    ensures
        r == (a@ == b@),
{
    if a.len() != b.len() {
        return false;
    }
    let mut i: usize = 0;
    while i < a.len()
        invariant
            a.len() == b.len(),
            i <= a.len(),
            forall|k: int| 0 <= k < i ==> a[k] == b[k],
        decreases a.len() - i,
    {
        if a[i] != b[i] {
            return false;
        }
        i += 1;
    }
    assert(a@ =~= b@);
    true
}

impl Sha256Assignment {
    /// Whole bytes of input, a full digest of output, and only bits on both.
    pub open spec fn wf(&self) -> bool {
        &&& self.input.len() % 8 == 0
        &&& self.output.len() == OUTPUT_LEN
        &&& is_bits(self.input@)
        &&& is_bits(self.output@)
    }

    /// The assignment that claims `digest` as the hash of `data`.
    pub fn from_digest(data: &Vec<u8>, digest: &Vec<u8>) -> (r: Self)
        requires
            data.len() <= usize::MAX / 8,
            digest.len() == DIGEST_BYTES,
        ensures
            r.input@ == bits_msb(data@),
            r.output@ == bits_msb(digest@),
            r.wf(),
    {
        let input = bytes_to_bits(data);
        let output = bytes_to_bits(digest);
        Sha256Assignment { input, output }
    }

    /// The assignment that claims the true SHA-256 digest of `data`.
    pub fn for_input(data: &Vec<u8>) -> (r: Self)
        requires
            data.len() <= usize::MAX / 8,
        ensures
            r.input@ == bits_msb(data@),
            r.output@ == bits_msb(sha256_of(data@)),
            r.wf(),
            consistent(r.input@, r.output@),
    {
        let digest = sha256_digest(data);
        Self::from_digest(data, &digest)
    }

    /// Evaluates the circuit's assertions on plain values: true exactly when
    /// the output bits are the digest bits of the message that the input bits
    /// spell.
    pub fn claims_true_digest(&self) -> (r: bool)
        ensures
            r == consistent(self.input@, self.output@),
    {
        if self.input.len() % 8 != 0 || !all_bits(&self.input) {
            proof {
                if consistent(self.input@, self.output@) {
                    let d = choose|d: Seq<u8>|
                        self.input@ == bits_msb(d) && self.output@ == bits_msb(sha256_of(d));
                    lemma_bits_msb_shape(d);
                }
            }
            return false;
        }
        let data = bits_to_bytes(&self.input);
        let digest = sha256_digest(&data);
        let expected = bytes_to_bits(&digest);
        let r = same_bits(&expected, &self.output);
        proof {
            if consistent(self.input@, self.output@) {
                let d = choose|d: Seq<u8>|
                    self.input@ == bits_msb(d) && self.output@ == bits_msb(sha256_of(d));
                lemma_bits_msb_injective(d, data@);
            }
        }
        r
    }

    /// Inverts output bit `i`, leaving every other wire value as it was.
    pub fn flip_output_bit(&mut self, i: usize)
        requires
            i < old(self).output.len(),
        ensures
            final(self).input@ == old(self).input@,
            final(self).output@ == old(self).output@.update(i as int, old(self).output[i as int] ^ 1u32),
            old(self).wf() ==> final(self).wf(),
    {
        let x = self.output[i];
        self.output.set(i, x ^ 1u32);
        proof {
            assert(x <= 1u32 ==> x ^ 1u32 <= 1u32) by (bit_vector);
        }
    }

    /// A copy with the same wire values.
    pub fn duplicate(&self) -> (r: Self)
        ensures
            r.input@ == self.input@,
            r.output@ == self.output@,
    {
        Sha256Assignment { input: copy_bits(&self.input), output: copy_bits(&self.output) }
    }
}

/// An assignment that claims the true digest of its message stops agreeing
/// with any message once one of its output bits is inverted: the input bits
/// fix the message, and the message fixes every output bit.
pub proof fn lemma_flipped_output_inconsistent(data: Seq<u8>, i: int)
    requires
        0 <= i < bits_msb(sha256_of(data)).len(),
    ensures
        consistent(bits_msb(data), bits_msb(sha256_of(data))),
        !consistent(
            bits_msb(data),
            bits_msb(sha256_of(data)).update(i, bits_msb(sha256_of(data))[i] ^ 1u32),
        ),
{
    let out = bits_msb(sha256_of(data));
    let flipped = out.update(i, out[i] ^ 1u32);
    let x = out[i];
    assert(x ^ 1u32 != x) by (bit_vector);
    assert(flipped[i] != out[i]);
    if consistent(bits_msb(data), flipped) {
        let d = choose|d: Seq<u8>| bits_msb(data) == bits_msb(d) && flipped == bits_msb(sha256_of(d));
        lemma_bits_msb_injective(data, d);
        assert(flipped == out);
    }
}

/// `n` copies of one assignment, one per instance of a batch.
pub fn replicate(a: &Sha256Assignment, n: usize) -> (r: Vec<Sha256Assignment>)
    ensures
        r.len() == n,
        forall|k: int| 0 <= k < n ==> r[k].input@ == a.input@ && r[k].output@ == a.output@,
{
    let mut r: Vec<Sha256Assignment> = Vec::new();
    let mut i: usize = 0;
    while i < n
        invariant
            i <= n,
            r.len() == i,
            forall|k: int| 0 <= k < i ==> r[k].input@ == a.input@ && r[k].output@ == a.output@,
        decreases n - i,
    {
        r.push(a.duplicate());
        i += 1;
    }
    r
}

/// A batch of `n` instances, each claiming the true digest of `data`.
pub fn batch_for_input(data: &Vec<u8>, n: usize) -> (r: Vec<Sha256Assignment>)
    requires
        data.len() <= usize::MAX / 8,
    ensures
        r.len() == n,
        forall|k: int|
            0 <= k < n ==> r[k].input@ == bits_msb(data@) && r[k].output@ == bits_msb(
                sha256_of(data@),
            ) && #[trigger] r[k].wf(),
{
    let a = Sha256Assignment::for_input(data);
    replicate(&a, n)
}

} // verus!
