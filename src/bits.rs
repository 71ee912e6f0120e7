use vstd::prelude::*;

verus! {

/// Bit `j` of `b`, counting from the most significant bit (`j == 0`).
pub open spec fn msb_bit(b: u8, j: int) -> u32 {
    ((b >> ((7 - j) as u8)) & 1u8) as u32
}

/// The bits of `s`, eight per byte, most significant bit first.
pub open spec fn bits_msb(s: Seq<u8>) -> Seq<u32> {
    Seq::new(8 * s.len(), |k: int| msb_bit(s[k / 8], k % 8))
}

/// Splits each byte into its eight bits, most significant first, each bit
/// held as `0` or `1`: the layout the circuit's input and output wires use.
pub fn bytes_to_bits(data: &Vec<u8>) -> (r: Vec<u32>)
    requires
        data.len() <= usize::MAX / 8,
    ensures
        r@ == bits_msb(data@),
        forall|k: int| 0 <= k < r.len() ==> r[k] <= 1,
{
    let mut r: Vec<u32> = Vec::new();
    let mut i: usize = 0;
    while i < data.len()
        invariant
            i <= data.len(),
            data.len() <= usize::MAX / 8,
            r.len() == 8 * i,
            forall|k: int| 0 <= k < r.len() ==> r[k] == msb_bit(data[k / 8], k % 8),
        decreases data.len() - i,
    {
        let b = data[i];
        let mut j: usize = 0;
        while j < 8
            invariant
                i < data.len(),
                b == data[i as int],
                j <= 8,
                r.len() == 8 * i + j,
                forall|k: int| 0 <= k < r.len() ==> r[k] == msb_bit(data[k / 8], k % 8),
            decreases 8 - j,
        {
            let bit: u32 = ((b >> (7 - j as u8)) & 1u8) as u32;
            proof {
                let k = 8 * i + j;
                assert(k / 8 == i && k % 8 == j) by (nonlinear_arith)
                    requires k == 8 * i + j, j < 8;
            }
            r.push(bit);
            j += 1;
        }
        i += 1;
    }
    proof {
        assert forall|k: int| 0 <= k < r.len() implies r[k] <= 1 by {
            let b = data[k / 8];
            let s = (7 - k % 8) as u8;
            assert((b >> s) & 1u8 <= 1u8) by (bit_vector);
        }
    }
    assert(r@ =~= bits_msb(data@));
    r
}

/// The byte whose bits, most significant first, are `x0` .. `x7`.
fn byte_from_bits(x0: u8, x1: u8, x2: u8, x3: u8, x4: u8, x5: u8, x6: u8, x7: u8) -> (r: u8)
    requires
        x0 <= 1 && x1 <= 1 && x2 <= 1 && x3 <= 1 && x4 <= 1 && x5 <= 1 && x6 <= 1 && x7 <= 1,
    ensures
        msb_bit(r, 0) == x0 as u32 && msb_bit(r, 1) == x1 as u32 && msb_bit(r, 2) == x2 as u32
            && msb_bit(r, 3) == x3 as u32 && msb_bit(r, 4) == x4 as u32 && msb_bit(r, 5)
            == x5 as u32 && msb_bit(r, 6) == x6 as u32 && msb_bit(r, 7) == x7 as u32,
{
    let r: u8 = (x0 << 7u8) | (x1 << 6u8) | (x2 << 5u8) | (x3 << 4u8) | (x4 << 3u8) | (x5 << 2u8)
        | (x6 << 1u8) | x7;
    assert(x0 <= 1 && x1 <= 1 && x2 <= 1 && x3 <= 1 && x4 <= 1 && x5 <= 1 && x6 <= 1 && x7 <= 1
        && r == (x0 << 7u8) | (x1 << 6u8) | (x2 << 5u8) | (x3 << 4u8) | (x4 << 3u8) | (x5 << 2u8)
        | (x6 << 1u8) | x7 ==> ((r >> 7u8) & 1u8) == x0 && ((r >> 6u8) & 1u8) == x1 && ((r >> 5u8)
        & 1u8) == x2 && ((r >> 4u8) & 1u8) == x3 && ((r >> 3u8) & 1u8) == x4 && ((r >> 2u8) & 1u8)
        == x5 && ((r >> 1u8) & 1u8) == x6 && ((r >> 0u8) & 1u8) == x7) by (bit_vector);
    r
}

/// Packs bits, eight per byte and most significant first, into bytes: the
/// inverse of `bytes_to_bits`.
pub fn bits_to_bytes(bits: &Vec<u32>) -> (r: Vec<u8>)
    requires
        bits.len() % 8 == 0,
        forall|k: int| 0 <= k < bits.len() ==> bits[k] <= 1,
    ensures
        bits_msb(r@) == bits@,
{
    let n = bits.len() / 8;
    let mut r: Vec<u8> = Vec::new();
    let mut i: usize = 0;
    while i < n
        invariant
            n == bits.len() / 8,
            bits.len() % 8 == 0,
            forall|k: int| 0 <= k < bits.len() ==> bits[k] <= 1,
            i <= n,
            r.len() == i,
            forall|m: int, j: int| 0 <= m < i && 0 <= j < 8 ==> #[trigger] msb_bit(r[m], j) == bits[8 * m + j],
        decreases n - i,
    {
        let k = 8 * i;
        let b = byte_from_bits(
            bits[k] as u8,
            bits[k + 1] as u8,
            bits[k + 2] as u8,
            bits[k + 3] as u8,
            bits[k + 4] as u8,
            bits[k + 5] as u8,
            bits[k + 6] as u8,
            bits[k + 7] as u8,
        );
        r.push(b);
        proof {
            assert forall|j: int| 0 <= j < 8 implies msb_bit(r[i as int], j) == bits[8 * i + j] by {
                if j == 0 {} else if j == 1 {} else if j == 2 {} else if j == 3 {}
                else if j == 4 {} else if j == 5 {} else if j == 6 {} else {}
            }
        }
        i += 1;
    }
    assert forall|k: int| 0 <= k < bits.len() implies bits_msb(r@)[k] == bits[k] by {
        let m = k / 8;
        let j = k % 8;
        assert(k == 8 * m + j && 0 <= m < n && 0 <= j < 8) by (nonlinear_arith)
            requires m == k / 8, j == k % 8, 0 <= k < bits.len(), n == bits.len() / 8, bits.len() % 8 == 0;
        assert(msb_bit(r[m], j) == bits[8 * m + j]);
    }
    assert(bits_msb(r@) =~= bits@);
    r
}

/// The bits of any byte string are bits, a whole number of bytes of them.
pub proof fn lemma_bits_msb_shape(s: Seq<u8>)
    ensures
        bits_msb(s).len() % 8 == 0,
        forall|k: int| 0 <= k < bits_msb(s).len() ==> bits_msb(s)[k] <= 1,
{
    assert((8 * s.len()) % 8 == 0) by (nonlinear_arith);
    assert forall|k: int| 0 <= k < bits_msb(s).len() implies bits_msb(s)[k] <= 1 by {
        let b = s[k / 8];
        let sh = (7 - k % 8) as u8;
        assert((b >> sh) & 1u8 <= 1u8) by (bit_vector);
    }
}

/// A byte is determined by its eight bits.
proof fn lemma_byte_from_bits(a: u8, b: u8)
    requires
        forall|j: int| 0 <= j < 8 ==> msb_bit(a, j) == msb_bit(b, j),
    ensures
        a == b,
{
    assert(msb_bit(a, 0) == msb_bit(b, 0));
    assert(msb_bit(a, 1) == msb_bit(b, 1));
    assert(msb_bit(a, 2) == msb_bit(b, 2));
    assert(msb_bit(a, 3) == msb_bit(b, 3));
    assert(msb_bit(a, 4) == msb_bit(b, 4));
    assert(msb_bit(a, 5) == msb_bit(b, 5));
    assert(msb_bit(a, 6) == msb_bit(b, 6));
    assert(msb_bit(a, 7) == msb_bit(b, 7));
    assert(((a >> 7u8) & 1u8) == ((b >> 7u8) & 1u8) && ((a >> 6u8) & 1u8) == ((b >> 6u8) & 1u8)
        && ((a >> 5u8) & 1u8) == ((b >> 5u8) & 1u8) && ((a >> 4u8) & 1u8) == ((b >> 4u8) & 1u8)
        && ((a >> 3u8) & 1u8) == ((b >> 3u8) & 1u8) && ((a >> 2u8) & 1u8) == ((b >> 2u8) & 1u8)
        && ((a >> 1u8) & 1u8) == ((b >> 1u8) & 1u8) && ((a >> 0u8) & 1u8) == ((b >> 0u8) & 1u8)
        ==> a == b) by (bit_vector);
}

/// Two byte strings with the same bits are the same byte string: the bit
/// layout loses nothing.
pub proof fn lemma_bits_msb_injective(a: Seq<u8>, b: Seq<u8>)
    requires
        bits_msb(a) == bits_msb(b),
    ensures
        a == b,
{
    assert(a.len() == b.len()) by {
        assert(bits_msb(a).len() == 8 * a.len());
        assert(bits_msb(b).len() == 8 * b.len());
    }
    assert forall|i: int| 0 <= i < a.len() implies a[i] == b[i] by {
        assert forall|j: int| 0 <= j < 8 implies msb_bit(a[i], j) == msb_bit(b[i], j) by {
            let k = 8 * i + j;
            assert(k / 8 == i && k % 8 == j && 0 <= k < 8 * a.len()) by (nonlinear_arith)
                requires k == 8 * i + j, 0 <= j < 8, 0 <= i < a.len();
            assert(bits_msb(a)[k] == bits_msb(b)[k]);
            assert(bits_msb(a)[k] == msb_bit(a[k / 8], k % 8));
            assert(bits_msb(b)[k] == msb_bit(b[k / 8], k % 8));
        }
        lemma_byte_from_bits(a[i], b[i]);
    }
    assert(a =~= b);
}

} // verus!
