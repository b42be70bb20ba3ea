//! 256-bit unsigned words.
//!
//! A word is held as four 64-bit limbs, least significant first, which is the
//! layout of `ruint::Uint<256, 4>`, the type that `revm` exports as
//! `primitives::U256`.  Ring arithmetic, shifts and the byte codec are done by
//! `ruint`; each call stands behind a small function whose contract states the
//! mathematical result over the word's value.

use vstd::prelude::*;
use vstd::arithmetic::power2::{
    lemma2_to64, lemma_pow2_adds, lemma_pow2_strictly_increases, lemma_pow2_unfold, pow2,
};
use crate::encoding::{
    be_value, lemma_be_value_skips_leading_zeros, lemma_minimal_is_unique, minimal_be,
};

verus! {

/// 2^64, the weight of the second limb.
pub open spec fn limb_base() -> nat {
    0x1_0000_0000_0000_0000nat
}

/// 2^256, the number of distinct words.
pub open spec fn word_modulus() -> nat {
    0x1_0000_0000_0000_0000_0000_0000_0000_0000_0000_0000_0000_0000_0000_0000_0000_0000nat
}

/// Number of bits needed to write `n` in binary; zero for zero.
pub open spec fn bit_length(n: nat) -> nat
    decreases n,
{
    if n == 0 {
        0
    } else {
        1 + bit_length(n / 2)
    }
}

/// An unsigned 256-bit integer.
#[derive(Clone, Copy, Debug, PartialEq, Eq)]
pub struct U256 {
    /// The four 64-bit limbs, least significant first.
    pub limbs: [u64; 4],
}

impl View for U256 {
    type V = nat;

    open spec fn view(&self) -> nat {
        self.limbs[0] as nat + self.limbs[1] as nat * limb_base() + self.limbs[2] as nat
            * limb_base() * limb_base() + self.limbs[3] as nat * limb_base() * limb_base()
            * limb_base()
    }
}

/// The word modulus is the fourth power of the limb base, and 2^256.
pub proof fn lemma_word_modulus()
    ensures
        word_modulus() == limb_base() * limb_base() * limb_base() * limb_base(),
        word_modulus() == pow2(256),
{
    assert(limb_base() * limb_base() * limb_base() * limb_base() == word_modulus())
        by (nonlinear_arith);
    lemma2_to64();
    lemma_pow2_adds(64, 64);
    lemma_pow2_adds(128, 128);
    assert(pow2(128) == limb_base() * limb_base());
    assert(pow2(256) == (limb_base() * limb_base()) * (limb_base() * limb_base()));
    assert((limb_base() * limb_base()) * (limb_base() * limb_base()) == limb_base() * limb_base()
        * limb_base() * limb_base()) by (nonlinear_arith);
}

/// A number below 2^`bits` has at most `bits` bits.
pub proof fn lemma_bit_length_bound(n: nat, bits: nat)
    requires
        n < pow2(bits),
    ensures
        bit_length(n) <= bits,
    decreases bits,
{
    lemma2_to64();
    if n > 0 {
        lemma_pow2_unfold(bits);
        lemma_bit_length_bound(n / 2, (bits - 1) as nat);
    }
}

/// A string of `len` bytes has a value below 2^(8 `len`), and one of at most
/// 32 bytes a value below the word modulus.
pub proof fn lemma_be_value_bound(bytes: Seq<u8>)
    ensures
        be_value(bytes) < pow2(8 * bytes.len()),
        bytes.len() <= 32 ==> be_value(bytes) < word_modulus(),
    decreases bytes.len(),
{
    lemma2_to64();
    if bytes.len() > 0 {
        let front = bytes.drop_last();
        lemma_be_value_bound(front);
        lemma_pow2_adds(8 * front.len(), 8);
        assert(be_value(front) * 256 + 255 < pow2(8 * front.len()) * 256) by (nonlinear_arith)
            requires
                be_value(front) < pow2(8 * front.len()),
        ;
    }
    if bytes.len() <= 32 {
        lemma_word_modulus();
        if bytes.len() < 32 {
            lemma_pow2_strictly_increases(8 * bytes.len(), 256);
        }
    }
}

impl U256 {
    /// The word whose value is `x`.
    pub fn from_u64(x: u64) -> (w: U256)
        ensures
            w@ == x,
    {
        U256 { limbs: [x, 0, 0, 0] }
    }

    /// Whether the word is zero.
    pub fn is_zero(&self) -> (b: bool)
        ensures
            b == (self@ == 0),
    {
        self.limbs[0] == 0 && self.limbs[1] == 0 && self.limbs[2] == 0 && self.limbs[3] == 0
    }

    /// Whether the lowest bit is clear.
    pub fn is_even(&self) -> (b: bool)
        ensures
            b == (self@ % 2 == 0),
    {
        self.limbs[0] % 2 == 0
    }

    /// The value as a `u64`, or `u64::MAX` where it does not fit.
    pub fn saturating_to_u64(&self) -> (x: u64)
        ensures
            x == if self@ <= u64::MAX { self@ } else { u64::MAX as nat },
    {
        if self.limbs[1] == 0 && self.limbs[2] == 0 && self.limbs[3] == 0 {
            self.limbs[0]
        } else {
            u64::MAX
        }
    }

    /// The word whose value is `data` read as a big-endian integer; `data`
    /// is padded on the left to 32 bytes.
    pub fn from_be_slice(data: &[u8]) -> (w: U256)
        requires
            data@.len() <= 32,
        ensures
            w@ == be_value(data@),
    {
        let shift: usize = 32 - data.len();
        let mut buf = [0u8; 32];
        let mut i: usize = 0;
        while i < data.len()
            invariant
                shift + data@.len() == 32,
                i <= data@.len(),
                forall|j: int| 0 <= j < shift ==> buf@[j] == 0,
                forall|j: int| 0 <= j < i ==> buf@[shift + j] == data@[j],
            decreases data@.len() - i,
        {
            buf[shift + i] = data[i];
            i += 1;
        }
        proof {
            lemma_be_value_skips_leading_zeros(buf@, shift as int);
            assert(buf@.subrange(shift as int, 32) =~= data@);
        }
        U256::from_be_bytes(buf)
    }

    /// The shortest big-endian encoding of the word: no leading zero byte,
    /// and the single byte `0x00` for zero.
    pub fn to_minimal_be_bytes(&self) -> (bytes: Vec<u8>)
        ensures
            bytes@ == minimal_be(self@),
    {
        let full = self.to_be_bytes();
        let mut first: usize = 0;
        while first < 31 && full[first] == 0
            invariant
                first <= 31,
                forall|j: int| 0 <= j < first ==> full@[j] == 0,
            decreases 31 - first,
        {
            first += 1;
        }
        let mut bytes: Vec<u8> = Vec::new();
        let mut i: usize = first;
        while i < 32
            invariant
                first <= i <= 32,
                bytes@ == full@.subrange(first as int, i as int),
            decreases 32 - i,
        {
            bytes.push(full[i]);
            assert(full@.subrange(first as int, i + 1) =~= bytes@);
            i += 1;
        }
        proof {
            lemma_be_value_skips_leading_zeros(full@, first as int);
            lemma_minimal_is_unique(bytes@);
        }
        bytes
    }

    /// `ruint`'s `from_be_bytes`: the word whose value is the 32 bytes read as
    /// a big-endian integer.
    #[verifier::external_body]
    pub(crate) fn from_be_bytes(bytes: [u8; 32]) -> (w: U256)
        ensures
            w@ == be_value(bytes@),
    {
        U256 { limbs: revm::primitives::U256::from_be_bytes(bytes).into_limbs() }
    }

    /// `ruint`'s `to_be_bytes`: the 32 bytes whose big-endian reading is the
    /// word's value.
    #[verifier::external_body]
    pub(crate) fn to_be_bytes(&self) -> (bytes: [u8; 32])
        ensures
            be_value(bytes@) == self@,
    {
        revm::primitives::U256::from_limbs(self.limbs).to_be_bytes()
    }

    /// `ruint`'s `leading_zeros`: how many of the 256 bits stand above the
    /// highest set bit; 256 for zero.
    #[verifier::external_body]
    pub(crate) fn leading_zeros(&self) -> (count: usize)
        ensures
            count == 256 - bit_length(self@),
    {
        revm::primitives::U256::from_limbs(self.limbs).leading_zeros()
    }

    /// `ruint`'s `wrapping_shr`: the value divided by 2^`bits`, rounded down.
    #[verifier::external_body]
    pub(crate) fn wrapping_shr(self, bits: usize) -> (w: U256)
        ensures
            w@ == self@ / pow2(bits as nat),
    {
        let word = revm::primitives::U256::from_limbs(self.limbs);
        U256 { limbs: word.wrapping_shr(bits).into_limbs() }
    }

    /// `ruint`'s `wrapping_shl`: the value times 2^`bits`, reduced modulo 2^256.
    #[verifier::external_body]
    pub(crate) fn wrapping_shl(self, bits: usize) -> (w: U256)
        ensures
            w@ == (self@ * pow2(bits as nat)) % word_modulus(),
    {
        let word = revm::primitives::U256::from_limbs(self.limbs);
        U256 { limbs: word.wrapping_shl(bits).into_limbs() }
    }

    /// `ruint`'s `wrapping_add`: the sum reduced modulo 2^256.
    #[verifier::external_body]
    pub(crate) fn wrapping_add(self, rhs: U256) -> (w: U256)
        ensures
            w@ == (self@ + rhs@) % word_modulus(),
    {
        let lhs = revm::primitives::U256::from_limbs(self.limbs);
        U256 { limbs: lhs.wrapping_add(revm::primitives::U256::from_limbs(rhs.limbs)).into_limbs() }
    }

    /// `ruint`'s `wrapping_sub`: the difference reduced modulo 2^256 into the
    /// range of a word.
    #[verifier::external_body]
    pub(crate) fn wrapping_sub(self, rhs: U256) -> (w: U256)
        ensures
            w@ == ((self@ - rhs@) % (word_modulus() as int)) as nat,
    {
        let lhs = revm::primitives::U256::from_limbs(self.limbs);
        U256 { limbs: lhs.wrapping_sub(revm::primitives::U256::from_limbs(rhs.limbs)).into_limbs() }
    }

    /// `ruint`'s `wrapping_mul`: the product reduced modulo 2^256.
    #[verifier::external_body]
    pub(crate) fn wrapping_mul(self, rhs: U256) -> (w: U256)
        ensures
            w@ == (self@ * rhs@) % word_modulus(),
    {
        let lhs = revm::primitives::U256::from_limbs(self.limbs);
        U256 { limbs: lhs.wrapping_mul(revm::primitives::U256::from_limbs(rhs.limbs)).into_limbs() }
    }

    /// `ruint`'s `wrapping_div`: the quotient rounded down.  The divisor must
    /// not be zero.
    #[verifier::external_body]
    pub(crate) fn wrapping_div(self, rhs: U256) -> (w: U256)
        requires
            rhs@ != 0,
        ensures
            w@ == self@ / rhs@,
    {
        let lhs = revm::primitives::U256::from_limbs(self.limbs);
        U256 { limbs: lhs.wrapping_div(revm::primitives::U256::from_limbs(rhs.limbs)).into_limbs() }
    }
}

} // verus!
