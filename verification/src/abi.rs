//! The shape of an ABI-encoded array of records.
//!
//! An array of `(string, address, uint256)` starts with a word that points to
//! the array.  There stands the number of records, then one word for each
//! record that points to its tuple.  A tuple starts with a word that points
//! to its label, and a label starts with a word that holds its length.
//!
//! A decoder walks these words.  The walk here follows the same words and
//! tells whether every label it leads to lies within the input, and whether
//! the input is exactly as long as the encoding of records with such labels.
//! A decoder is then only handed lengths and offsets that stay inside the
//! buffer, and what it builds is no larger than the input.

use vstd::prelude::*;
use crate::encoding::{be_value, lemma_be_value_prefix};

verus! {

/// Bytes in one ABI word.
pub const WORD: usize = 32;

/// Value of the word that starts at `at`, where it lies within the input.
pub open spec fn word_at(input: Seq<u8>, at: int) -> Option<nat> {
    if 0 <= at && at + 32 <= input.len() {
        Some(be_value(input.subrange(at, at + 32)))
    } else {
        None
    }
}

/// Where the offset word at `at` points, counted from `base`; `None` where
/// the word or the place it points to lies outside the input.
pub open spec fn target_of(input: Seq<u8>, base: int, at: int) -> Option<int> {
    match word_at(input, at) {
        Some(offset) => if base + offset <= input.len() {
            Some(base + offset)
        } else {
            None
        },
        None => None,
    }
}

/// Where the array starts: the place the first word points to.
pub open spec fn array_start(input: Seq<u8>) -> Option<int> {
    target_of(input, 0, 0)
}

/// The number of records that the input declares.
pub open spec fn declared_count(input: Seq<u8>) -> Option<nat> {
    match array_start(input) {
        Some(array) => word_at(input, array),
        None => None,
    }
}

/// Where the label of record `i` starts: the place of its length word.
pub open spec fn label_start(input: Seq<u8>, i: int) -> Option<int> {
    match array_start(input) {
        Some(array) => match target_of(input, array + 32, array + 32 + 32 * i) {
            Some(tuple) => target_of(input, tuple, tuple),
            None => None,
        },
        None => None,
    }
}

/// Where the label of record `i` ends: behind its length word and as many
/// bytes as that word tells.
pub open spec fn label_end(input: Seq<u8>, i: int) -> Option<int> {
    match label_start(input, i) {
        Some(label) => match word_at(input, label) {
            Some(len) => Some(label + 32 + len),
            None => None,
        },
        None => None,
    }
}

/// Whether the label of record `i` can be reached and lies within the input,
/// length word and bytes.
pub open spec fn label_in_bounds(input: Seq<u8>, i: int) -> bool {
    match label_end(input, i) {
        Some(end) => end <= input.len(),
        None => false,
    }
}

/// Whether the input declares a number of records and the label of each of
/// them lies within the input.
pub open spec fn labels_in_bounds(input: Seq<u8>) -> bool {
    match declared_count(input) {
        Some(count) => forall|i: int| 0 <= i < count ==> label_in_bounds(input, i),
        None => false,
    }
}

/// Length of the label of record `i`; zero where the label cannot be reached.
pub open spec fn label_len(input: Seq<u8>, i: int) -> nat {
    match label_start(input, i) {
        Some(label) => match word_at(input, label) {
            Some(len) => len,
            None => 0,
        },
        None => 0,
    }
}

/// Bytes that a label of `len` bytes takes when padded to whole words.
pub open spec fn padded(len: nat) -> nat {
    (len + 31) / 32 * 32
}

/// Length of the encoding of the first `count` records with the labels that
/// the input holds for them: two words for the array, and for each record
/// five words and its padded label.
pub open spec fn encoded_size(input: Seq<u8>, count: nat) -> nat
    decreases count,
{
    if count == 0 {
        64
    } else {
        encoded_size(input, (count - 1) as nat) + 160 + padded(label_len(input, count - 1))
    }
}

/// Whether every declared label lies within the input and the input is
/// exactly as long as the encoding of the records it declares.
pub open spec fn well_sized(input: Seq<u8>) -> bool {
    &&& labels_in_bounds(input)
    &&& encoded_size(input, declared_count(input)->Some_0) == input.len()
}

/// The encoding grows with each record.
pub proof fn lemma_encoded_size_grows(input: Seq<u8>, fewer: nat, more: nat)
    requires
        fewer <= more,
    ensures
        64 <= encoded_size(input, fewer) <= encoded_size(input, more),
    decreases more,
{
    if fewer < more {
        lemma_encoded_size_grows(input, fewer, (more - 1) as nat);
    } else if more > 0 {
        lemma_encoded_size_grows(input, 0, (more - 1) as nat);
    }
}

/// A word that can be read in a prefix of the input is the same word in the
/// input, and so is the place an offset word points to.
pub proof fn lemma_walk_of_prefix(input: Seq<u8>, keep: int, base: int, at: int)
    requires
        0 <= keep <= input.len(),
    ensures
        word_at(input.take(keep), at) matches Some(v) ==> word_at(input, at) == Some(v),
        target_of(input.take(keep), base, at) matches Some(t) ==> target_of(input, base, at)
            == Some(t),
{
    if 0 <= at && at + 32 <= keep {
        assert(input.take(keep).subrange(at, at + 32) =~= input.subrange(at, at + 32));
    }
}

/// An input is refused where the label of one of its records cannot be
/// reached or ends behind the place where the input is cut.  With the cut at
/// the end of the input this tells of offsets and lengths that lead outside;
/// with an earlier cut, of input that was truncated.
pub proof fn lemma_cut_label_is_out_of_bounds(input: Seq<u8>, keep: int, i: int)
    requires
        0 <= keep <= input.len(),
        declared_count(input) matches Some(count) && 0 <= i < count,
        !(label_end(input, i) matches Some(end) && end <= keep),
    ensures
        !labels_in_bounds(input.take(keep)),
{
    let cut = input.take(keep);
    if labels_in_bounds(cut) {
        lemma_walk_of_prefix(input, keep, 0, 0);
        let array = array_start(cut)->Some_0;
        lemma_walk_of_prefix(input, keep, 0, array);
        assert(declared_count(cut) == declared_count(input));
        assert(label_in_bounds(cut, i));
        lemma_walk_of_prefix(input, keep, array + 32, array + 32 + 32 * i);
        let tuple = target_of(cut, array + 32, array + 32 + 32 * i)->Some_0;
        lemma_walk_of_prefix(input, keep, tuple, tuple);
        let label = label_start(cut, i)->Some_0;
        lemma_walk_of_prefix(input, keep, 0, label);
        assert(label_end(cut, i) == label_end(input, i));
    }
}

/// The records of a prefix in which every label lies have the labels, and so
/// the encoded size, that they have in the input.
proof fn lemma_encoded_size_of_prefix(input: Seq<u8>, keep: int, count: nat)
    requires
        0 <= keep <= input.len(),
        array_start(input.take(keep)) is Some,
        forall|i: int| 0 <= i < count ==> label_in_bounds(input.take(keep), i),
    ensures
        encoded_size(input.take(keep), count) == encoded_size(input, count),
    decreases count,
{
    if count > 0 {
        let cut = input.take(keep);
        let i = count - 1;
        lemma_encoded_size_of_prefix(input, keep, i as nat);
        assert(label_in_bounds(cut, i));
        lemma_walk_of_prefix(input, keep, 0, 0);
        let array = array_start(cut)->Some_0;
        lemma_walk_of_prefix(input, keep, array + 32, array + 32 + 32 * i);
        let tuple = target_of(cut, array + 32, array + 32 + 32 * i)->Some_0;
        lemma_walk_of_prefix(input, keep, tuple, tuple);
        let label = label_start(cut, i)->Some_0;
        lemma_walk_of_prefix(input, keep, 0, label);
        assert(label_len(cut, i) == label_len(input, i));
    }
}

/// No proper prefix of a well-sized input is well-sized: truncated input is
/// found out, wherever it is cut.
pub proof fn lemma_proper_prefix_is_not_well_sized(input: Seq<u8>, keep: int)
    requires
        0 <= keep < input.len(),
        well_sized(input),
    ensures
        !well_sized(input.take(keep)),
{
    let cut = input.take(keep);
    if well_sized(cut) {
        lemma_walk_of_prefix(input, keep, 0, 0);
        let array = array_start(cut)->Some_0;
        lemma_walk_of_prefix(input, keep, 0, array);
        assert(declared_count(cut) == declared_count(input));
        lemma_encoded_size_of_prefix(input, keep, declared_count(cut)->Some_0);
    }
}

/// An input shorter than two words is not well-sized.
pub proof fn lemma_short_input_is_not_well_sized(input: Seq<u8>)
    requires
        input.len() < 64,
    ensures
        !well_sized(input),
{
    if labels_in_bounds(input) {
        lemma_encoded_size_grows(input, 0, declared_count(input)->Some_0);
    }
}

/// Reads the word at `at` as a number no greater than `bound`.
fn bounded_word(input: &[u8], at: usize, bound: usize) -> (value: Option<usize>)
    ensures
        match value {
            Some(v) => word_at(input@, at as int) == Some(v as nat) && v <= bound,
            None => match word_at(input@, at as int) {
                Some(v) => v > bound,
                None => true,
            },
        },
{
    let len: usize = input.len();
    if at > len || len - at < WORD {
        return None;
    }
    let ghost word = input@.subrange(at as int, at + 32);
    let mut acc: usize = 0;
    let mut k: usize = 0;
    while k < WORD
        invariant
            k <= 32,
            len == input@.len(),
            at + 32 <= len,
            word == input@.subrange(at as int, at + 32),
            acc == be_value(word.take(k as int)),
            acc <= bound,
        decreases 32 - k,
    {
        let next: u128 = (acc as u128) * 256 + (input[at + k] as u128);
        proof {
            assert(word.take(k + 1).drop_last() =~= word.take(k as int));
            lemma_be_value_prefix(word, k + 1);
        }
        if next > bound as u128 {
            return None;
        }
        acc = next as usize;
        k += 1;
    }
    proof {
        assert(word.take(32) =~= word);
    }
    Some(acc)
}

/// Follows the offset word at `at`, counted from `base`.
fn follow(input: &[u8], base: usize, at: usize) -> (target: Option<usize>)
    requires
        base <= input@.len(),
    ensures
        match target {
            Some(t) => target_of(input@, base as int, at as int) == Some(t as int),
            None => target_of(input@, base as int, at as int) is None,
        },
{
    match bounded_word(input, at, input.len() - base) {
        Some(offset) => Some(base + offset),
        None => None,
    }
}

/// Tells whether every label that the input declares lies within the input
/// and the input is exactly as long as the encoding of the declared records.
pub fn is_well_sized(input: &[u8]) -> (ok: bool)
    ensures
        ok == well_sized(input@),
{
    let len: usize = input.len();
    let array: usize = match follow(input, 0, 0) {
        Some(array) => array,
        None => {
            return false;
        },
    };
    if len - array < WORD {
        return false;
    }
    let elements: usize = array + WORD;
    let count: usize = match bounded_word(input, array, (len - elements) / WORD) {
        Some(count) => count,
        None => {
            // more records are declared than words are left for their offsets
            assert(!label_in_bounds(input@, (len - elements) as int / 32));
            return false;
        },
    };
    if len < 2 * WORD {
        proof {
            lemma_encoded_size_grows(input@, 0, count as nat);
        }
        return false;
    }
    let mut size: usize = 2 * WORD;
    let mut i: usize = 0;
    while i < count
        invariant
            i <= count,
            len == input@.len(),
            array_start(input@) == Some(array as int),
            declared_count(input@) == Some(count as nat),
            elements == array + 32,
            elements <= len,
            count <= (len - elements) / 32,
            forall|j: int| 0 <= j < i ==> label_in_bounds(input@, j),
            size == encoded_size(input@, i as nat),
            size <= len,
        decreases count - i,
    {
        let tuple: usize = match follow(input, elements, elements + WORD * i) {
            Some(tuple) => tuple,
            None => {
                assert(!label_in_bounds(input@, i as int));
                return false;
            },
        };
        let label: usize = match follow(input, tuple, tuple) {
            Some(label) => label,
            None => {
                assert(!label_in_bounds(input@, i as int));
                return false;
            },
        };
        if len - label < WORD {
            assert(!label_in_bounds(input@, i as int));
            return false;
        }
        let label_len: usize = match bounded_word(input, label, len - label - WORD) {
            Some(label_len) => label_len,
            None => {
                assert(!label_in_bounds(input@, i as int));
                return false;
            },
        };
        let padded_len: u128 = (label_len as u128 + 31) / 32 * 32;
        let next: u128 = size as u128 + 160 + padded_len;
        assert(next == encoded_size(input@, (i + 1) as nat));
        if next > len as u128 {
            proof {
                lemma_encoded_size_grows(input@, (i + 1) as nat, count as nat);
            }
            return false;
        }
        size = next as usize;
        i += 1;
    }
    size == len
}

} // verus!
