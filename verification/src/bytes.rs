//! Little-endian numbers as byte sequences.

use vstd::arithmetic::power::pow;
use vstd::prelude::*;

verus! {

/// The bytes of a `usize` on this machine.
pub open spec fn size_width() -> nat {
    (usize::BITS / 8) as nat
}

/// The `width` lowest base-256 digits of `n`, lowest first.
pub open spec fn le_bytes(n: nat, width: nat) -> Seq<u8>
    decreases width,
{
    if width == 0 {
        Seq::empty()
    } else {
        seq![(n % 256) as u8] + le_bytes(n / 256, (width - 1) as nat)
    }
}

/// The number whose base-256 digits are `bytes`, lowest first.
pub open spec fn le_value(bytes: Seq<u8>) -> nat
    decreases bytes.len(),
{
    if bytes.len() == 0 {
        0
    } else {
        bytes[0] as nat + 256 * le_value(bytes.drop_first())
    }
}

/// `le_bytes` gives as many bytes as it was asked for.
pub broadcast proof fn lemma_le_bytes_len(n: nat, width: nat)
    ensures
        #[trigger] le_bytes(n, width).len() == width,
    decreases width,
{
    if width > 0 {
        lemma_le_bytes_len(n / 256, (width - 1) as nat);
    }
}

/// A number that fits in `width` bytes is read back from the bytes written for it.
pub proof fn lemma_le_value_of_le_bytes(n: nat, width: nat)
    requires
        n < pow(256, width),
    ensures
        le_value(le_bytes(n, width)) == n,
    decreases width,
{
    reveal(pow);
    if width > 0 {
        let rest = (width - 1) as nat;
        assert(n / 256 < pow(256, rest)) by (nonlinear_arith)
            requires
                n < 256 * pow(256, rest),
        ;
        lemma_le_value_of_le_bytes(n / 256, rest);
        assert(le_bytes(n, width).drop_first() =~= le_bytes(n / 256, rest));
    }
}

/// Writing the number read from some bytes gives these bytes again.
pub proof fn lemma_le_bytes_of_le_value(bytes: Seq<u8>)
    ensures
        le_bytes(le_value(bytes), bytes.len()) == bytes,
        le_value(bytes) < pow(256, bytes.len()),
    decreases bytes.len(),
{
    reveal(pow);
    if bytes.len() > 0 {
        let rest = bytes.drop_first();
        lemma_le_bytes_of_le_value(rest);
        let n = le_value(bytes);
        assert(n % 256 == bytes[0] as nat && n / 256 == le_value(rest));
        assert(le_bytes(n, bytes.len()) =~= bytes);
    }
}

/// The largest number of each width in use.
pub proof fn lemma_widths()
    ensures
        size_width() == 4 || size_width() == 8,
        pow(256, size_width()) == usize::MAX + 1,
        pow(256, 8) == u64::MAX + 1,
        pow(256, 4) == u32::MAX + 1,
{
    assert(pow(256, 8) == u64::MAX + 1 && pow(256, 4) == u32::MAX + 1) by {
        reveal_with_fuel(pow, 9);
    }
    broadcast use vstd::layout::group_layout_axioms;

    vstd::layout::unsigned_int_max_values();
    assert(size_width() == vstd::layout::size_of::<usize>());
}

/// The number whose base-256 digits are `bytes`, lowest first.
pub fn usize_from_le_bytes(bytes: &Vec<u8>) -> (n: usize)
    requires
        bytes@.len() == size_width(),
    ensures
        n == le_value(bytes@),
{
    let mut n: usize = 0;
    let mut i: usize = bytes.len();
    while i > 0
        invariant
            bytes@.len() == size_width(),
            i <= bytes@.len(),
            n == le_value(bytes@.skip(i as int)),
        decreases i,
    {
        i = i - 1;
        proof {
            let tail = bytes@.skip(i as int);
            assert(tail.drop_first() =~= bytes@.skip(i + 1));
            lemma_le_value_of_suffix(bytes@, i as int);
            lemma_le_bytes_of_le_value(bytes@);
            lemma_widths();
        }
        n = n * 256 + bytes[i] as usize;
    }
    assert(bytes@.skip(0) =~= bytes@);
    n
}

/// The digits from some place on are worth no more than all of them.
proof fn lemma_le_value_of_suffix(bytes: Seq<u8>, from: int)
    requires
        0 <= from <= bytes.len(),
    ensures
        le_value(bytes.skip(from)) <= le_value(bytes),
    decreases from,
{
    if from == 0 {
        assert(bytes.skip(0) =~= bytes);
    } else {
        lemma_le_value_of_suffix(bytes, from - 1);
        assert(bytes.skip(from - 1).drop_first() =~= bytes.skip(from));
    }
}

} // verus!
