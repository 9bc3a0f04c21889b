use vstd::prelude::*;

use bit_set::BitSet;
use byteorder::{ByteOrder, LittleEndian};

use crate::bitset::{bit_set_bit_len, bit_set_bits, bit_set_contains};

verus! {

// ---------------------------------------------------------------------------
// The 7z number: a first byte whose leading one bits count the bytes that
// follow, which hold the low bytes of the value in little-endian order; the
// bits of the first byte below its leading ones hold the value's high bits.

/// Whether `v` fits in `j` bytes after the first byte: `v < 2^(7 (j + 1))`.
pub open spec fn fits_with_extra(v: u64, j: u64) -> bool {
    v < (1u64 << (7 * (j + 1)) as u64)
}

/// The number of bytes after the first byte, searching from `i`: the least
/// `j >= i` below 8 with `v < 2^(7 (j + 1))`, and 8 where there is none.
pub open spec fn extra_bytes_from(v: u64, i: u64) -> u64
    decreases 8 - i,
{
    if i >= 8 {
        8
    } else if fits_with_extra(v, i) {
        i
    } else {
        extra_bytes_from(v, (i + 1) as u64)
    }
}

/// The number of bytes that follow the first byte in the encoding of `v`.
pub open spec fn extra_bytes(v: u64) -> u64 {
    extra_bytes_from(v, 0)
}

/// The first byte of the encoding of `v`: `n` leading one bits for the `n`
/// bytes that follow, then (where `n < 8`) the bits of `v` above its low
/// `n` bytes.
pub open spec fn first_byte(v: u64) -> u8 {
    let n = extra_bytes(v);
    if n >= 8 {
        0xFFu8
    } else {
        (((0xFF00u64 >> n) & 0xFFu64) | (v >> (8 * n) as u64)) as u8
    }
}

/// The low `n` bytes of `v`, least significant first.
pub open spec fn le_bytes(v: u64, n: nat) -> Seq<u8>
    decreases n,
{
    if n == 0 {
        Seq::empty()
    } else {
        seq![(v & 0xFFu64) as u8] + le_bytes(v >> 8u64, (n - 1) as nat)
    }
}

/// Byte `i` of `le_bytes(v, n)` is bits `8 i` to `8 i + 7` of `v`.
pub proof fn lemma_le_bytes_index(v: u64, n: nat)
    requires
        n <= 8,
    ensures
        le_bytes(v, n) == Seq::new(n, |i: int| ((v >> (8 * i) as u64) & 0xFFu64) as u8),
    decreases n,
{
    if n > 0 {
        lemma_le_bytes_index(v >> 8u64, (n - 1) as nat);
        assert forall|i: int| 0 <= i < n implies #[trigger] le_bytes(v, n)[i] == ((v >> (8 * i) as u64)
            & 0xFFu64) as u8 by {
            if i > 0 {
                let ii: u64 = i as u64;
                assert(le_bytes(v, n)[i] == le_bytes(v >> 8u64, (n - 1) as nat)[i - 1]);
                assert((v >> 8u64) >> (8 * (ii - 1)) as u64 == v >> (8 * ii) as u64) by (bit_vector)
                    requires
                        1 <= ii < 8,
                ;
            } else {
                assert(v >> 0u64 == v) by (bit_vector);
            }
        }
        assert(v >> 0u64 == v) by (bit_vector);
        assert(le_bytes(v, n) =~= Seq::new(n, |i: int| ((v >> (8 * i) as u64) & 0xFFu64) as u8));
    }
}

/// The encoding of `v` as a 7z number.
pub open spec fn encode_u64(v: u64) -> Seq<u8> {
    seq![first_byte(v)] + le_bytes(v, extra_bytes(v) as nat)
}

/// The number of leading one bits of `b`, counting from bit `7 - k`.
pub open spec fn leading_ones_from(b: u8, k: u8) -> u8
    decreases 8 - k,
{
    if k >= 8 {
        8
    } else if (b >> (7 - k) as u8) & 1u8 == 0 {
        k
    } else {
        leading_ones_from(b, (k + 1) as u8)
    }
}

/// The little-endian value of a byte string (bytes beyond the eighth drop out).
pub open spec fn le_value(s: Seq<u8>) -> u64
    decreases s.len(),
{
    if s.len() == 0 {
        0
    } else {
        (s[0] as u64) | (le_value(s.drop_first()) << 8u64)
    }
}

/// Reads a 7z number from the start of `s`: the value and the number of
/// bytes it took, or `None` where `s` ends too soon.
pub open spec fn decode_u64(s: Seq<u8>) -> Option<(u64, int)> {
    if s.len() == 0 {
        None
    } else {
        let n = leading_ones_from(s[0], 0);
        if s.len() < n + 1 {
            None
        } else {
            let low = le_value(s.subrange(1, n + 1));
            let high: u64 = if n >= 8 {
                0
            } else {
                ((s[0] as u64) & (0x7Fu64 >> n as u64)) << (8 * n) as u64
            };
            Some((low | high, n + 1))
        }
    }
}

proof fn lemma_extra_bytes_from_skip(v: u64, k: u64, i: u64)
    requires
        k <= i <= 8,
        forall|j: u64| k <= j < i ==> !#[trigger] fits_with_extra(v, j),
    ensures
        extra_bytes_from(v, k) == extra_bytes_from(v, i),
    decreases i - k,
{
    if k < i {
        lemma_extra_bytes_from_skip(v, (k + 1) as u64, i);
    }
}

proof fn lemma_extra_bytes_bound(v: u64, i: u64)
    requires
        i <= 8,
    ensures
        i <= extra_bytes_from(v, i) <= 8,
        extra_bytes_from(v, i) < 8 ==> v < (1u64 << (7 * (extra_bytes_from(v, i) + 1)) as u64),
    decreases 8 - i,
{
    if i < 8 && !(v < (1u64 << (7 * (i + 1)) as u64)) {
        lemma_extra_bytes_bound(v, (i + 1) as u64);
    }
}

proof fn lemma_extra_bytes_none_before(v: u64, i: u64)
    requires
        i <= 8,
    ensures
        forall|j: u64| i <= j < extra_bytes_from(v, i) ==> !#[trigger] fits_with_extra(v, j),
    decreases 8 - i,
{
    if i < 8 && !fits_with_extra(v, i) {
        lemma_extra_bytes_none_before(v, (i + 1) as u64);
    }
}

/// The encoding of a 7z number uses the fewest bytes that hold it: with `n`
/// bytes after the first, `v` fits in `n` (or `n` is 8) and does not fit in
/// `n - 1`.
pub proof fn lemma_encode_u64_minimal(v: u64)
    ensures
        extra_bytes(v) <= 8,
        encode_u64(v).len() == extra_bytes(v) + 1,
        extra_bytes(v) == 8 || v < (1u64 << (7 * (extra_bytes(v) + 1)) as u64),
        extra_bytes(v) == 0 || !(v < (1u64 << (7 * extra_bytes(v)) as u64)),
{
    lemma_extra_bytes_bound(v, 0);
    lemma_extra_bytes_none_before(v, 0);
    lemma_le_value_of_le_bytes(v, extra_bytes(v) as nat);
    let n = extra_bytes(v);
    if n > 0 {
        assert(!fits_with_extra(v, (n - 1) as u64));
        assert((7 * ((n - 1) as u64 + 1)) as u64 == (7 * n) as u64);
    }
}

proof fn lemma_leading_ones_of_first_byte(v: u64, n: u64, k: u8)
    requires
        n <= 8,
        k <= n,
        n < 8 ==> v < (1u64 << (7 * (n + 1)) as u64),
    ensures
        leading_ones_from(
            (if n >= 8 {
                0xFFu8
            } else {
                (((0xFF00u64 >> n) & 0xFFu64) | (v >> (8 * n) as u64)) as u8
            }),
            k,
        ) == n,
    decreases n - k,
{
    let b: u8 = if n >= 8 {
        0xFFu8
    } else {
        (((0xFF00u64 >> n) & 0xFFu64) | (v >> (8 * n) as u64)) as u8
    };
    if k < n {
        assert((b >> (7 - k) as u8) & 1u8 == 1u8) by (bit_vector)
            requires
                k < n,
                n <= 8,
                n < 8 ==> v < (1u64 << (7 * (n + 1)) as u64),
                b == (if n >= 8 {
                    0xFFu8
                } else {
                    (((0xFF00u64 >> n) & 0xFFu64) | (v >> (8 * n) as u64)) as u8
                }),
        ;
        lemma_leading_ones_of_first_byte(v, n, (k + 1) as u8);
    } else if n < 8 {
        assert((b >> (7 - n) as u8) & 1u8 == 0u8) by (bit_vector)
            requires
                n < 8,
                v < (1u64 << (7 * (n + 1)) as u64),
                b == (((0xFF00u64 >> n) & 0xFFu64) | (v >> (8 * n) as u64)) as u8,
        ;
    }
}

pub(crate) proof fn lemma_le_value_of_le_bytes(v: u64, n: nat)
    requires
        n <= 8,
    ensures
        le_bytes(v, n).len() == n,
        n < 8 ==> le_value(le_bytes(v, n)) == v & ((1u64 << (8 * n) as u64) - 1) as u64,
        n == 8 ==> le_value(le_bytes(v, n)) == v,
    decreases n,
{
    if n == 0 {
        assert(v & ((1u64 << 0u64) - 1) as u64 == 0) by (bit_vector);
    } else {
        lemma_le_value_of_le_bytes(v >> 8u64, (n - 1) as nat);
        let rest = le_value(le_bytes(v >> 8u64, (n - 1) as nat));
        assert(le_bytes(v, n).drop_first() =~= le_bytes(v >> 8u64, (n - 1) as nat));
        let m: u64 = n as u64;
        assert(((v & 0xFFu64) as u8) as u64 | (rest << 8u64) == (if m < 8 {
            v & ((1u64 << (8 * m) as u64) - 1) as u64
        } else {
            v
        })) by (bit_vector)
            requires
                1 <= m <= 8,
                m - 1 < 8 ==> rest == (v >> 8u64) & ((1u64 << (8 * (m - 1)) as u64) - 1) as u64,
                m - 1 == 8 ==> rest == v >> 8u64,
        ;
    }
}

/// Reading back the 7z number that `v` is written as gives `v`, and tells
/// how many bytes it took, whatever follows it.
pub proof fn lemma_decode_encode_u64(v: u64, rest: Seq<u8>)
    ensures
        1 <= encode_u64(v).len() <= 9,
        decode_u64(encode_u64(v) + rest) == Some((v, encode_u64(v).len() as int)),
{
    let n = extra_bytes(v);
    lemma_extra_bytes_bound(v, 0);
    lemma_le_value_of_le_bytes(v, n as nat);
    let s = encode_u64(v) + rest;
    let b = first_byte(v);
    lemma_leading_ones_of_first_byte(v, n, 0);
    assert(s[0] == b);
    assert(s.subrange(1, n + 1) =~= le_bytes(v, n as nat));
    let low = le_value(le_bytes(v, n as nat));
    let k = leading_ones_from(s[0], 0);
    assert(k as u64 == n);
    assert(s.len() >= n + 1);
    if n < 8 {
        assert(low | (((b as u64) & (0x7Fu64 >> n)) << (8 * n) as u64) == v) by (bit_vector)
            requires
                n < 8,
                v < (1u64 << (7 * (n + 1)) as u64),
                low == v & ((1u64 << (8 * n) as u64) - 1) as u64,
                b == (((0xFF00u64 >> n) & 0xFFu64) | (v >> (8 * n) as u64)) as u8,
        ;
        assert(((s[0] as u64) & (0x7Fu64 >> k as u64)) << (8 * k) as u64 == ((b as u64) & (0x7Fu64
            >> n)) << (8 * n) as u64);
    } else {
        assert(low | 0u64 == low) by (bit_vector);
    }
}

/// Appends the 7z number encoding of `value` to `header`.
pub fn write_u64(header: &mut Vec<u8>, value: u64)
    ensures
        final(header)@ == old(header)@ + encode_u64(value),
{
    let mut first: u64 = 0;
    let mut mask: u64 = 0x80;
    let mut i: u64 = 0;
    assert(0u64 == (0xFF00u64 >> 0u64) & 0xFFu64 && 0x80u64 == 0x80u64 >> 0u64) by (bit_vector);
    while i < 8
        invariant_except_break
            i <= 8,
            i == 8 ==> first == 0xFFu64,
            forall|j: u64| j < i ==> !#[trigger] fits_with_extra(value, j),
            first == (0xFF00u64 >> i) & 0xFFu64,
            mask == 0x80u64 >> i,
        ensures
            i <= 8,
            forall|j: u64| j < i ==> !#[trigger] fits_with_extra(value, j),
            i < 8 ==> value < (1u64 << (7 * (i + 1)) as u64) && first == ((0xFF00u64 >> i)
                & 0xFFu64) | (value >> (8 * i) as u64),
            i == 8 ==> first == 0xFFu64,
        decreases 8 - i,
    {
        if value < (1u64 << (7 * (i + 1))) {
            first |= value >> (8 * i);
            break;
        }
        assert(!fits_with_extra(value, i));
        assert(first | mask == (0xFF00u64 >> (i + 1) as u64) & 0xFFu64 && mask >> 1u64 == 0x80u64
            >> (i + 1) as u64 && (i + 1 == 8 ==> first | mask == 0xFFu64)) by (bit_vector)
            requires
                i < 8,
                first == (0xFF00u64 >> i) & 0xFFu64,
                mask == 0x80u64 >> i,
        ;
        first |= mask;
        mask = mask >> 1;
        i += 1;
    }
    proof {
        lemma_extra_bytes_from_skip(value, 0, i);
        if i == 8 {
            assert(first == 0xFFu64);
        }
    }
    assert(extra_bytes(value) == i);
    assert((first & 0xff) as u8 == first_byte(value)) by {
        if i < 8 {
            assert(((((0xFF00u64 >> i) & 0xFFu64) | (value >> (8 * i) as u64)) & 0xFFu64) as u8
                == (((0xFF00u64 >> i) & 0xFFu64) | (value >> (8 * i) as u64)) as u8)
                by (bit_vector);
        } else {
            assert((0xFFu64 & 0xFFu64) as u8 == 0xFFu8) by (bit_vector);
        }
    }
    header.push((first & 0xff) as u8);
    let ghost start = header@;
    let mut v = value;
    while i > 0
        invariant
            start == old(header)@ + seq![first_byte(value)],
            header@ + le_bytes(v, i as nat) == start + le_bytes(value, extra_bytes(value) as nat),
        decreases i,
    {
        let ghost before = header@;
        header.push((v & 0xff) as u8);
        assert(le_bytes(v, i as nat) == seq![(v & 0xFFu64) as u8] + le_bytes(v >> 8u64, (i - 1) as nat));
        assert(header@ + le_bytes(v >> 8u64, (i - 1) as nat) =~= before + le_bytes(v, i as nat));
        v = v >> 8;
        i -= 1;
    }
    assert(header@ + le_bytes(v, 0) =~= header@);
}

// ---------------------------------------------------------------------------
// The 7z bit vector: bit `i` is bit `7 - i % 8` of byte `i / 8`, and the last
// byte is padded with zero bits.

/// The byte whose bit `7 - j` is `bits[j]`, for up to eight bits; the bits
/// below them are zero.
pub open spec fn pack_byte(bits: Seq<bool>) -> u8
    decreases bits.len(),
{
    if bits.len() == 0 {
        0
    } else {
        pack_byte(bits.drop_last()) | (if bits.last() {
            0x80u8 >> (bits.len() - 1) as u8
        } else {
            0u8
        })
    }
}

/// The bytes of the 7z bit vector that holds `bits`.
pub open spec fn pack_bits(bits: Seq<bool>) -> Seq<u8> {
    Seq::new(
        ((bits.len() + 7) / 8) as nat,
        |k: int|
            pack_byte(
                bits.subrange(8 * k, if 8 * k + 8 <= bits.len() {
                    8 * k + 8
                } else {
                    bits.len() as int
                }),
            ),
    )
}

/// The first `n` bits of the 7z bit vector held in `bytes`.
pub open spec fn unpack_bits(bytes: Seq<u8>, n: nat) -> Seq<bool> {
    Seq::new(n, |i: int| (bytes[i / 8] >> (7 - i % 8) as u8) & 1u8 == 1u8)
}

proof fn lemma_pack_byte(bits: Seq<bool>)
    requires
        bits.len() <= 8,
    ensures
        pack_byte(bits) & (0xFFu8 >> bits.len() as u8) == 0,
        forall|j: int|
            0 <= j < bits.len() ==> (((pack_byte(bits) >> (7 - j) as u8) & 1u8 == 1u8)
                == #[trigger] bits[j]),
    decreases bits.len(),
{
    if bits.len() == 0 {
        assert(0u8 & (0xFFu8 >> 0u8) == 0) by (bit_vector);
    } else {
        let prev = bits.drop_last();
        lemma_pack_byte(prev);
        let pb = pack_byte(prev);
        let len: u8 = bits.len() as u8;
        let m: u8 = if bits.last() {
            0x80u8 >> (len - 1) as u8
        } else {
            0u8
        };
        let x = bits.last();
        assert(pack_byte(bits) == pb | m);
        assert((pb | m) & (0xFFu8 >> len) == 0 && ((((pb | m) >> (7 - (len - 1)) as u8) & 1u8
            == 1u8) == x)) by (bit_vector)
            requires
                1 <= len <= 8,
                pb & (0xFFu8 >> (len - 1) as u8) == 0,
                m == (if x {
                    0x80u8 >> (len - 1) as u8
                } else {
                    0u8
                }),
        ;
        assert forall|j: int| 0 <= j < bits.len() implies (((pack_byte(bits) >> (7 - j) as u8) & 1u8
            == 1u8) == #[trigger] bits[j]) by {
            if j < bits.len() - 1 {
                assert(prev[j] == bits[j]);
                let jj: u8 = j as u8;
                assert((((pb | m) >> (7 - jj) as u8) & 1u8 == 1u8) == (((pb >> (7 - jj) as u8) & 1u8)
                    == 1u8)) by (bit_vector)
                    requires
                        1 <= len <= 8,
                        jj < len - 1,
                        m == 0u8 || m == 0x80u8 >> (len - 1) as u8,
                ;
            }
        }
    }
}

/// Reading back the 7z bit vector that `bits` is written as gives `bits`;
/// it takes one byte for every eight bits or fewer.
pub proof fn lemma_unpack_pack_bits(bits: Seq<bool>)
    ensures
        pack_bits(bits).len() == (bits.len() + 7) / 8,
        unpack_bits(pack_bits(bits), bits.len()) == bits,
{
    let packed = pack_bits(bits);
    assert forall|i: int| 0 <= i < bits.len() implies unpack_bits(packed, bits.len())[i] == bits[i] by {
        let k = i / 8;
        let end = if 8 * k + 8 <= bits.len() {
            8 * k + 8
        } else {
            bits.len() as int
        };
        let chunk = bits.subrange(8 * k, end);
        lemma_pack_byte(chunk);
        assert(chunk[i % 8] == bits[i]);
    }
    assert(unpack_bits(packed, bits.len()) =~= bits);
}

proof fn lemma_pack_bits_extend(bits: Seq<bool>, full: int)
    requires
        0 <= full,
        full % 8 == 0,
        full <= bits.len(),
    ensures
        pack_bits(bits.take(full)) == Seq::new(
            (full / 8) as nat,
            |k: int| pack_byte(bits.subrange(8 * k, 8 * k + 8)),
        ),
{
    let t = bits.take(full);
    assert forall|k: int| 0 <= k < full / 8 implies #[trigger] pack_bits(t)[k] == pack_byte(
        bits.subrange(8 * k, 8 * k + 8),
    ) by {
        assert(t.subrange(8 * k, 8 * k + 8) =~= bits.subrange(8 * k, 8 * k + 8));
    }
    assert(pack_bits(t) =~= Seq::new(
        (full / 8) as nat,
        |k: int| pack_byte(bits.subrange(8 * k, 8 * k + 8)),
    ));
}

/// Appends the 7z bit vector that holds the bits of `bs` to `out`: one bit
/// for every position of the set's bit vector, eight to a byte, the first
/// in the highest bit.
pub fn write_bit_set(out: &mut Vec<u8>, bs: &BitSet)
    ensures
        final(out)@ == old(out)@ + pack_bits(bit_set_bits(*bs)),
{
    let ghost bits = bit_set_bits(*bs);
    let n = bit_set_bit_len(bs);
    let mut cache: u8 = 0;
    let mut shift: u8 = 7;
    let mut i: usize = 0;
    let ghost mut full: int = 0;
    assert(bits.subrange(0, 0) =~= Seq::<bool>::empty());
    while i < n
        invariant
            n == bits.len(),
            bits == bit_set_bits(*bs),
            0 <= full <= i <= n,
            full % 8 == 0,
            i - full < 8,
            shift == 7 - (i - full),
            cache == pack_byte(bits.subrange(full, i as int)),
            out@ == old(out)@ + Seq::new(
                (full / 8) as nat,
                |k: int| pack_byte(bits.subrange(8 * k, 8 * k + 8)),
            ),
        decreases n - i,
    {
        let set: u8 = if bit_set_contains(bs, i) {
            1
        } else {
            0
        };
        let ghost sub = bits.subrange(full, i + 1);
        assert(sub.drop_last() =~= bits.subrange(full, i as int));
        assert(sub.last() == bits[i as int]);
        assert(set << shift == (if bits[i as int] {
            0x80u8 >> (sub.len() - 1) as u8
        } else {
            0u8
        })) by {
            let c: u8 = (sub.len() - 1) as u8;
            assert(c == 7 - shift);
            assert((1u8 << shift) == 0x80u8 >> c && (0u8 << shift) == 0u8) by (bit_vector)
                requires
                    shift <= 7,
                    c == 7 - shift,
            ;
        }
        cache = cache | (set << shift);
        i = i + 1;
        if shift == 0 {
            let ghost before = out@;
            out.push(cache);
            proof {
                assert(bits.subrange(full, i as int) == bits.subrange(8 * (full / 8), 8 * (full / 8)
                    + 8));
                assert(out@ =~= old(out)@ + Seq::new(
                    ((full + 8) / 8) as nat,
                    |k: int| pack_byte(bits.subrange(8 * k, 8 * k + 8)),
                ));
                full = full + 8;
                assert(bits.subrange(full, i as int) =~= Seq::<bool>::empty());
            }
            shift = 7;
            cache = 0;
        } else {
            shift = shift - 1;
        }
    }
    proof {
        lemma_pack_bits_extend(bits, full);
    }
    if shift != 7 {
        out.push(cache);
        proof {
            let whole = pack_bits(bits);
            let k = full / 8;
            assert(whole.len() == k + 1);
            assert(bits.subrange(8 * k, bits.len() as int) == bits.subrange(full, i as int));
            assert forall|j: int| 0 <= j < k implies #[trigger] whole[j] == pack_bits(bits.take(full))[j] by {
                assert(bits.take(full).subrange(8 * j, 8 * j + 8) =~= bits.subrange(8 * j, 8 * j + 8));
            }
            assert(whole =~= pack_bits(bits.take(full)).push(cache));
        }
    } else {
        proof {
            assert(full == n);
            assert(bits.take(full) =~= bits);
        }
    }
}

// ---------------------------------------------------------------------------
// Fixed-width little-endian integers.

/// Calls `byteorder::LittleEndian::write_u32` on a four-byte buffer: the
/// four bytes of `n`, least significant first.
#[verifier::external_body]
pub(crate) fn u32_le_bytes(n: u32) -> (r: Vec<u8>)
    ensures
        r@ == le_bytes(n as u64, 4),
{
    let mut buf = vec![0u8; 4];
    LittleEndian::write_u32(&mut buf, n);
    buf
}

/// Calls `byteorder::LittleEndian::write_u64` on an eight-byte buffer: the
/// eight bytes of `n`, least significant first.
#[verifier::external_body]
pub(crate) fn u64_le_bytes(n: u64) -> (r: Vec<u8>)
    ensures
        r@ == le_bytes(n, 8),
{
    let mut buf = vec![0u8; 8];
    LittleEndian::write_u64(&mut buf, n);
    buf
}

} // verus!
