//! Fixed-width little-endian integers, the only number format on the wire.

use vstd::prelude::*;

verus! {

/// `256` to the power `n`: the number of values that `n` bytes can hold.
pub open spec fn radix_pow(n: nat) -> nat
    decreases n,
{
    if n == 0 {
        1
    } else {
        256 * radix_pow((n - 1) as nat)
    }
}

/// The `n` low-order bytes of `value`, least significant first.
pub open spec fn le_bytes(value: nat, n: nat) -> Seq<u8>
    decreases n,
{
    if n == 0 {
        Seq::empty()
    } else {
        seq![(value % 256) as u8] + le_bytes(value / 256, (n - 1) as nat)
    }
}

/// The number that `bytes` denotes when read least significant byte first.
pub open spec fn le_value(bytes: Seq<u8>) -> nat
    decreases bytes.len(),
{
    if bytes.len() == 0 {
        0
    } else {
        bytes[0] as nat + 256 * le_value(bytes.skip(1))
    }
}

/// Four bytes hold exactly the `u32` range and eight bytes the `u64` range.
pub proof fn lemma_radix_pow_widths()
    ensures
        radix_pow(4) == 0x1_0000_0000,
        radix_pow(8) == 0x1_0000_0000_0000_0000,
{
    reveal_with_fuel(radix_pow, 9);
}

/// An encoding is as long as the width asked for.
pub proof fn lemma_le_bytes_len(value: nat, n: nat)
    ensures
        le_bytes(value, n).len() == n,
    decreases n,
{
    if n > 0 {
        lemma_le_bytes_len(value / 256, (n - 1) as nat);
    }
}

/// A byte string denotes a number below `256` to the power of its length.
pub proof fn lemma_le_value_bound(bytes: Seq<u8>)
    ensures
        le_value(bytes) < radix_pow(bytes.len()),
    decreases bytes.len(),
{
    if bytes.len() > 0 {
        lemma_le_value_bound(bytes.skip(1));
    }
}

/// Decoding undoes encoding for every value that fits the width.
pub proof fn lemma_le_value_of_bytes(value: nat, n: nat)
    requires
        value < radix_pow(n),
    ensures
        le_value(le_bytes(value, n)) == value,
    decreases n,
{
    if n > 0 {
        let low = seq![(value % 256) as u8];
        let high = le_bytes(value / 256, (n - 1) as nat);
        lemma_le_value_of_bytes(value / 256, (n - 1) as nat);
        assert((low + high).skip(1) =~= high);
    }
}

/// Encoding undoes decoding: a byte string is the encoding of its own value.
pub proof fn lemma_le_bytes_of_value(bytes: Seq<u8>)
    ensures
        le_bytes(le_value(bytes), bytes.len()) == bytes,
    decreases bytes.len(),
{
    if bytes.len() > 0 {
        let tail = bytes.skip(1);
        lemma_le_bytes_of_value(tail);
        assert(seq![bytes[0]] + tail =~= bytes);
    }
}

/// Appends the `width` low-order bytes of `value` to `out`, least significant
/// first.
pub fn put_le(out: &mut Vec<u8>, value: u64, width: usize)
    ensures
        final(out)@ == old(out)@ + le_bytes(value as nat, width as nat),
{
    let mut rest: u64 = value;
    let mut written: usize = 0;
    while written < width
        invariant
            written <= width,
            out@ + le_bytes(rest as nat, (width - written) as nat) == old(out)@ + le_bytes(
                value as nat,
                width as nat,
            ),
        decreases width - written,
    {
        let ghost before = out@;
        let low: u8 = (rest % 256) as u8;
        out.push(low);
        proof {
            let later = le_bytes((rest / 256) as nat, (width - written - 1) as nat);
            assert(before.push(low) + later =~= before + (seq![low] + later));
        }
        rest = rest / 256;
        written = written + 1;
    }
    assert(out@ + Seq::<u8>::empty() =~= out@);
}

/// Reads the little-endian number held in the `width` bytes of `bytes` that
/// start at `at`.
pub fn get_le(bytes: &[u8], at: usize, width: usize) -> (value: u64)
    requires
        width <= 8,
        at + width <= bytes.len(),
    ensures
        value as nat == le_value(bytes@.subrange(at as int, at + width)),
{
    let mut value: u64 = 0;
    let mut left: usize = width;
    assert(bytes@.subrange(at + width, at + width).len() == 0);
    while left > 0
        invariant
            left <= width <= 8,
            at + width <= bytes.len(),
            value as nat == le_value(bytes@.subrange(at + left, at + width)),
        decreases left,
    {
        let ghost high = bytes@.subrange(at + left, at + width);
        left = left - 1;
        let byte: u8 = bytes[at + left];
        proof {
            let whole = bytes@.subrange(at + left, at + width);
            assert(whole.skip(1) =~= high);
            lemma_le_value_bound(whole);
            lemma_radix_pow_widths();
            lemma_radix_pow_monotonic(whole.len(), 8);
        }
        value = value * 256 + byte as u64;
    }
    value
}

/// More bytes hold at least as many values.
pub proof fn lemma_radix_pow_monotonic(m: nat, n: nat)
    requires
        m <= n,
    ensures
        radix_pow(m) <= radix_pow(n),
    decreases n,
{
    if m < n {
        lemma_radix_pow_monotonic(m, (n - 1) as nat);
    }
}

} // verus!
