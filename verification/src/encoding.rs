//! Big-endian byte strings as numbers.
//!
//! `be_value` reads a byte string as an unsigned integer; `minimal_be` writes a
//! number with no leading zero byte, and zero as the single byte `0x00`.  The
//! lemmas show that the minimal encoding is the only encoding of its value
//! without a leading zero byte.

use vstd::prelude::*;

verus! {

/// Value of a byte string read as a big-endian unsigned integer.
pub open spec fn be_value(bytes: Seq<u8>) -> nat
    decreases bytes.len(),
{
    if bytes.len() == 0 {
        0
    } else {
        be_value(bytes.drop_last()) * 256 + bytes.last() as nat
    }
}

/// The shortest big-endian encoding of `value` that is not empty.
pub open spec fn minimal_be(value: nat) -> Seq<u8>
    decreases value,
{
    if value < 256 {
        seq![value as u8]
    } else {
        minimal_be(value / 256).push((value % 256) as u8)
    }
}

/// Whether a byte string is not empty and carries no leading zero byte that
/// could be dropped.
pub open spec fn is_minimal(bytes: Seq<u8>) -> bool {
    bytes.len() >= 1 && (bytes.len() == 1 || bytes[0] != 0)
}

/// Zero bytes in front of a byte string do not change its value.
pub proof fn lemma_be_value_skips_leading_zeros(bytes: Seq<u8>, zeros: int)
    requires
        0 <= zeros <= bytes.len(),
        forall|i: int| 0 <= i < zeros ==> bytes[i] == 0,
    ensures
        be_value(bytes) == be_value(bytes.subrange(zeros, bytes.len() as int)),
    decreases bytes.len(),
{
    let rest = bytes.subrange(zeros, bytes.len() as int);
    if bytes.len() == 0 {
        assert(rest =~= bytes);
    } else if zeros == bytes.len() {
        let front = bytes.drop_last();
        lemma_be_value_skips_leading_zeros(front, zeros - 1);
        assert(front.subrange(zeros - 1, front.len() as int) =~= Seq::<u8>::empty());
        assert(rest =~= Seq::<u8>::empty());
    } else {
        let front = bytes.drop_last();
        lemma_be_value_skips_leading_zeros(front, zeros);
        assert(rest.drop_last() =~= front.subrange(zeros, front.len() as int));
        assert(rest.last() == bytes.last());
    }
}

/// A byte string is worth at least as much as any of its prefixes.
pub proof fn lemma_be_value_prefix(bytes: Seq<u8>, k: int)
    requires
        0 <= k <= bytes.len(),
    ensures
        be_value(bytes.take(k)) <= be_value(bytes),
    decreases bytes.len(),
{
    if k < bytes.len() {
        let front = bytes.drop_last();
        lemma_be_value_prefix(front, k);
        assert(front.take(k) =~= bytes.take(k));
    } else {
        assert(bytes.take(k) =~= bytes);
    }
}

/// A byte string that starts with a non-zero byte has a non-zero value.
pub proof fn lemma_be_value_positive(bytes: Seq<u8>)
    requires
        bytes.len() >= 1,
        bytes[0] != 0,
    ensures
        be_value(bytes) > 0,
    decreases bytes.len(),
{
    let front = bytes.drop_last();
    if front.len() == 0 {
        assert(be_value(front) == 0);
    } else {
        lemma_be_value_positive(front);
    }
}

/// The minimal encoding is minimal and encodes its value.
pub proof fn lemma_minimal_be_decodes(value: nat)
    ensures
        be_value(minimal_be(value)) == value,
        is_minimal(minimal_be(value)),
        value == 0 ==> minimal_be(value) == seq![0u8],
    decreases value,
{
    if value < 256 {
        let one = seq![value as u8];
        assert(one.drop_last() =~= Seq::<u8>::empty());
        assert(be_value(one.drop_last()) == 0);
    } else {
        let front = minimal_be(value / 256);
        lemma_minimal_be_decodes(value / 256);
        let all = front.push((value % 256) as u8);
        assert(all.drop_last() =~= front);
        assert(all[0] == front[0]);
        if front.len() == 1 {
            assert(front[0] != 0) by {
                assert(front.drop_last() =~= Seq::<u8>::empty());
                assert(be_value(front.drop_last()) == 0);
            }
        }
    }
}

/// A minimal byte string is the minimal encoding of its own value.
pub proof fn lemma_minimal_is_unique(bytes: Seq<u8>)
    requires
        is_minimal(bytes),
    ensures
        bytes == minimal_be(be_value(bytes)),
    decreases bytes.len(),
{
    let front = bytes.drop_last();
    let last = bytes.last();
    if front.len() == 0 {
        assert(be_value(front) == 0);
        assert(bytes =~= seq![last]);
    } else {
        assert(front[0] == bytes[0]);
        lemma_be_value_positive(front);
        lemma_minimal_is_unique(front);
        let value = be_value(bytes);
        assert(value / 256 == be_value(front));
        assert(value % 256 == last as nat);
        assert(bytes =~= front.push(last));
    }
}

/// Decoding a minimal encoding and encoding the number again gives the same
/// bytes: minimal encoding is idempotent.
pub proof fn lemma_minimal_be_round_trip(value: nat)
    ensures
        minimal_be(be_value(minimal_be(value))) == minimal_be(value),
{
    lemma_minimal_be_decodes(value);
}

} // verus!
