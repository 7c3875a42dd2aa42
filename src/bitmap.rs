//! Bit access and decoding of daily per-account activity bitmaps.
use vstd::prelude::*;

verus! {

/// Number of block heights covered by one day's bitmap.
pub const BLOCK_HEIGHTS_IN_DAY: usize = 86000;

/// The value of bit `i` of `bytes`, bits numbered big-endian within each byte.
pub open spec fn bit_at(bytes: Seq<u8>, i: int) -> bool {
    ((bytes[i / 8] >> ((7 - i % 8) as u8)) & 1u8) == 1u8
}

/// A day's bitmap: the first block of the day and its bit buffer.
pub struct Bitmap {
    pub start_block_height: i32,
    pub bitmap: Vec<u8>,
}

/// Stateless operations on bitmaps.
pub struct BitmapOperator {}

impl BitmapOperator {
    pub fn new() -> (r: Self) {
        BitmapOperator {  }
    }

    /// Reads bit `bit_index` of `decompressed_bytes` (big-endian within a byte).
    pub fn get_bit_in_byte_array(&self, decompressed_bytes: &[u8], bit_index: usize) -> (r: bool)
        requires
            bit_index / 8 < decompressed_bytes@.len(),
        ensures
            r == bit_at(decompressed_bytes@, bit_index as int),
    {
        let byte_index: usize = bit_index / 8;
        let bit_index_in_byte: usize = bit_index % 8;
        let b: u8 = decompressed_bytes[byte_index];
        let shift: u8 = (7 - bit_index_in_byte) as u8;
        let r = (b & (1u8 << shift)) > 0;
        assert(((b & (1u8 << shift)) > 0) == (((b >> shift) & 1u8) == 1u8)) by (bit_vector)
            requires
                shift < 8,
        ;
        r
    }
}

/// Why a compressed bitmap cannot be decoded.
#[derive(Clone, Copy, Debug, PartialEq, Eq, Structural)]
pub enum BitmapError {
    /// A negative start height, a codeword that runs past the buffer, or more
    /// blocks than a day holds.
    MalformedBitmap,
}

/// The bits of `bytes`, in order.
pub open spec fn bits_of(bytes: Seq<u8>) -> Seq<bool> {
    Seq::new(8 * bytes.len(), |i: int| bit_at(bytes, i))
}

/// Number of unset bits from `c` up to the next set bit (or the end).
pub open spec fn zeros_from(bits: Seq<bool>, c: int) -> nat
    decreases bits.len() - c,
{
    if 0 <= c < bits.len() && !bits[c] {
        1 + zeros_from(bits, c + 1)
    } else {
        0
    }
}

/// The unsigned number that `bits` spell, most significant first.
pub open spec fn bits_value(bits: Seq<bool>) -> nat
    decreases bits.len(),
{
    if bits.len() == 0 {
        0
    } else {
        2 * bits_value(bits.drop_last()) + (if bits.last() { 1nat } else { 0nat })
    }
}

pub open spec fn two_pow(n: nat) -> nat
    decreases n,
{
    if n == 0 {
        1
    } else {
        2 * two_pow((n - 1) as nat)
    }
}

pub open spec fn as_ints(v: Seq<u64>) -> Seq<int> {
    v.map_values(|h: u64| h as int)
}

/// `n` consecutive heights from `a`.
pub open spec fn height_run(a: int, n: nat) -> Seq<int> {
    Seq::new(n, |j: int| a + j)
}

/// The heights that the Elias-gamma runs of `bits` from `cursor` on set, where
/// `produced` bits are decoded already and the next run has `polarity`; `None`
/// for a malformed encoding. A run is `k` unset bits, then `k + 1` bits spelling
/// its length `n`; runs alternate between unset and set bits. Unset bits up to
/// the end are padding.
pub open spec fn decode_from(bits: Seq<bool>, start: int, cursor: int, polarity: bool, produced: nat) -> Option<Seq<int>>
    decreases bits.len() - cursor,
{
    if cursor < 0 || cursor >= bits.len() {
        Some(Seq::empty())
    } else {
        let k = zeros_from(bits, cursor);
        if cursor + k >= bits.len() {
            Some(Seq::empty())
        } else if cursor + 2 * k + 1 > bits.len() {
            None
        } else {
            let n = bits_value(bits.subrange(cursor + k, cursor + 2 * k + 1));
            if produced + n > BLOCK_HEIGHTS_IN_DAY {
                None
            } else {
                match decode_from(bits, start, cursor + 2 * k + 1, !polarity, produced + n) {
                    None => None,
                    Some(rest) => Some(
                        if polarity { height_run(start + produced, n) + rest } else { rest },
                    ),
                }
            }
        }
    }
}

/// The heights a compressed day bitmap sets: its first bit gives the polarity of
/// the first run, the runs follow.
pub open spec fn decoded_heights(bytes: Seq<u8>, start: int) -> Option<Seq<int>> {
    let bits = bits_of(bytes);
    if start < 0 {
        None
    } else if bits.len() == 0 {
        Some(Seq::empty())
    } else {
        decode_from(bits, start, 1, bits[0], 0)
    }
}

proof fn lemma_leading_one_value(bits: Seq<bool>)
    requires
        bits.len() >= 1,
        bits[0],
    ensures
        bits_value(bits) >= two_pow((bits.len() - 1) as nat),
    decreases bits.len(),
{
    if bits.len() > 1 {
        lemma_leading_one_value(bits.drop_last());
    }
}

proof fn lemma_two_pow_17()
    ensures
        two_pow(17) == 131072,
{
    reveal_with_fuel(two_pow, 18);
}

proof fn lemma_two_pow_monotone(a: nat, b: nat)
    requires
        a <= b,
    ensures
        two_pow(a) <= two_pow(b),
    decreases b,
{
    if a < b {
        lemma_two_pow_monotone(a, (b - 1) as nat);
    }
}

proof fn lemma_value_bound(bits: Seq<bool>)
    ensures
        bits_value(bits) < two_pow(bits.len()),
    decreases bits.len(),
{
    if bits.len() > 0 {
        lemma_value_bound(bits.drop_last());
    }
}

impl BitmapOperator {
    /// The block heights a compressed day bitmap marks active, ascending.
    pub fn decode_day_heights(&self, compressed: &Bitmap) -> (r: Result<Vec<u64>, BitmapError>)
        requires
            compressed.bitmap@.len() * 8 <= usize::MAX,
        ensures
            match decoded_heights(compressed.bitmap@, compressed.start_block_height as int) {
                None => r == Err::<Vec<u64>, BitmapError>(BitmapError::MalformedBitmap),
                Some(hs) => r is Ok && as_ints(r->Ok_0@) == hs,
            },
    {
        if compressed.start_block_height < 0 {
            return Err(BitmapError::MalformedBitmap);
        }
        let start = compressed.start_block_height as u64;
        let bytes = compressed.bitmap.as_slice();
        let len: usize = bytes.len() * 8;
        let ghost bits = bits_of(bytes@);
        let mut out: Vec<u64> = Vec::new();
        if len == 0 {
            assert(as_ints(out@) =~= Seq::<int>::empty());
            return Ok(out);
        }
        let mut polarity = self.get_bit_in_byte_array(bytes, 0);
        let mut cursor: usize = 1;
        let mut produced: u64 = 0;
        assert(as_ints(out@) + decode_from(bits, start as int, 1, polarity, 0)->0
            =~= decode_from(bits, start as int, 1, polarity, 0)->0);
        while cursor < len
            invariant
                bits == bits_of(bytes@),
                len == bits.len(),
                len == bytes@.len() * 8,
                1 <= cursor,
                produced <= BLOCK_HEIGHTS_IN_DAY,
                start <= i32::MAX,
                start as int == compressed.start_block_height as int,
                bytes@ == compressed.bitmap@,
                decoded_heights(bytes@, start as int) == match decode_from(bits, start as int, cursor as int, polarity, produced as nat) {
                    None => None,
                    Some(rest) => Some(as_ints(out@) + rest),
                },
            decreases len - cursor,
        {
            let mut k: usize = 0;
            while cursor + k < len && !self.get_bit_in_byte_array(bytes, cursor + k)
                invariant
                    bits == bits_of(bytes@),
                    len == bits.len(),
                    len == bytes@.len() * 8,
                    cursor < len,
                    cursor + k <= len,
                    zeros_from(bits, cursor as int) == k + zeros_from(bits, (cursor + k) as int),
                decreases len - cursor - k,
            {
                k = k + 1;
            }
            assert(zeros_from(bits, (cursor + k) as int) == 0);
            if cursor + k >= len {
                assert(as_ints(out@) + Seq::<int>::empty() =~= as_ints(out@));
                return Ok(out);
            }
            if k > len - cursor - k - 1 {
                return Err(BitmapError::MalformedBitmap);
            }
            let p = cursor + k;
            let ghost code = bits.subrange(p as int, (p + k + 1) as int);
            if k >= 17 {
                proof {
                    lemma_leading_one_value(code);
                    lemma_two_pow_17();
                    lemma_two_pow_monotone(17, k as nat);
                }
                return Err(BitmapError::MalformedBitmap);
            }
            let mut n: u64 = 0;
            let mut j: usize = 0;
            while j <= k
                invariant
                    bits == bits_of(bytes@),
                    len == bits.len(),
                    len == bytes@.len() * 8,
                    k < 17,
                    p + k + 1 <= len,
                    j <= k + 1,
                    code == bits.subrange(p as int, (p + k + 1) as int),
                    n as nat == bits_value(code.subrange(0, j as int)),
                    n < two_pow(j as nat),
                decreases k + 1 - j,
            {
                proof {
                    assert(code.subrange(0, j + 1).drop_last() =~= code.subrange(0, j as int));
                    lemma_two_pow_monotone(j as nat, 16);
                    reveal_with_fuel(two_pow, 18);
                }
                let b = self.get_bit_in_byte_array(bytes, p + j);
                n = 2 * n + if b { 1 } else { 0 };
                j = j + 1;
            }
            assert(code.subrange(0, (k + 1) as int) =~= code);
            if n > BLOCK_HEIGHTS_IN_DAY as u64 - produced {
                return Err(BitmapError::MalformedBitmap);
            }
            if polarity {
                let ghost before = as_ints(out@);
                let mut m: u64 = 0;
                while m < n
                    invariant
                        m <= n,
                        produced + n <= BLOCK_HEIGHTS_IN_DAY,
                        start <= i32::MAX,
                        as_ints(out@) == before + height_run(start + produced, m as nat),
                    decreases n - m,
                {
                    let ghost prev = out@;
                    out.push(start + produced + m);
                    assert(as_ints(out@) =~= as_ints(prev).push((start + produced + m) as int));
                    assert(as_ints(out@) =~= before + height_run(start + produced, (m + 1) as nat));
                    m = m + 1;
                }
            }
            proof {
                let rest = decode_from(bits, start as int, (p + k + 1) as int, !polarity, (produced + n) as nat);
                if rest is Some {
                    if polarity {
                        assert(as_ints(out@) + rest->0 =~= (as_ints(out@)
                            .subrange(0, out@.len() - n as int)) + (height_run(start + produced, n as nat) + rest->0));
                    }
                }
            }
            produced = produced + n;
            polarity = !polarity;
            cursor = p + k + 1;
        }
        assert(as_ints(out@) + Seq::<int>::empty() =~= as_ints(out@));
        Ok(out)
    }
}

} // verus!
