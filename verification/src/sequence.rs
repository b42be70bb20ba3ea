//! The Fibonacci sequence and the identities behind fast doubling.

use vstd::prelude::*;
use vstd::arithmetic::div_mod::{
    lemma_add_mod_noop, lemma_mul_mod_noop, lemma_mul_mod_noop_left, lemma_sub_mod_noop,
};
use crate::word::word_modulus;

verus! {

/// The `n`-th Fibonacci number: `F(0) = 0`, `F(1) = 1`, `F(n) = F(n-1) + F(n-2)`.
pub open spec fn fib(n: nat) -> nat
    decreases n,
{
    if n == 0 {
        0
    } else if n == 1 {
        1
    } else {
        fib((n - 1) as nat) + fib((n - 2) as nat)
    }
}

/// The largest index whose Fibonacci number fits in 256 bits.
pub open spec fn largest_exact_index() -> nat {
    370
}

/// The sequence never decreases.
pub proof fn lemma_fib_monotonic(i: nat, j: nat)
    requires
        i <= j,
    ensures
        fib(i) <= fib(j),
    decreases j,
{
    if i < j {
        lemma_fib_monotonic(i, (j - 1) as nat);
    }
}

/// Addition law: `F(m + n + 1) = F(m + 1) F(n + 1) + F(m) F(n)`.
pub proof fn lemma_fib_addition(m: nat, n: nat)
    ensures
        fib(m + n + 1) == fib(m + 1) * fib(n + 1) + fib(m) * fib(n),
    decreases n,
{
    if n == 0 {
        assert(fib(m + 1) * 1 + fib(m) * 0 == fib(m + 1)) by (nonlinear_arith);
    } else if n == 1 {
        assert(fib(2) == 1) by {
            reveal_with_fuel(fib, 3);
        }
        assert(fib(m + 1) * 1 + fib(m) * 1 == fib(m + 1) + fib(m)) by (nonlinear_arith);
    } else {
        lemma_fib_addition(m, (n - 1) as nat);
        lemma_fib_addition(m, (n - 2) as nat);
        // F(m + n + 1) = F(m + n) + F(m + n - 1), each by induction
        let a = fib(m + 1);
        let b = fib(m);
        let x = fib(n);
        let y = fib((n - 1) as nat);
        let z = fib((n - 2) as nat);
        assert(fib(m + n) == a * x + b * y);
        assert(fib((m + n - 1) as nat) == a * y + b * z);
        assert(a * (x + y) + b * (y + z) == (a * x + b * y) + (a * y + b * z))
            by (nonlinear_arith);
    }
}

/// Doubling identities: `F(2k) = F(k) (2 F(k+1) - F(k))` and
/// `F(2k+1) = F(k)^2 + F(k+1)^2`.
pub proof fn lemma_fib_doubling(k: nat)
    ensures
        fib(k) <= fib(k + 1),
        fib(2 * k) == fib(k) * (2 * fib(k + 1) - fib(k)),
        fib(2 * k + 1) == fib(k) * fib(k) + fib(k + 1) * fib(k + 1),
        fib(2 * k + 2) == fib(2 * k) + fib(2 * k + 1),
{
    lemma_fib_monotonic(k, k + 1);
    lemma_fib_addition(k, k);
    let a = fib(k);
    let b = fib(k + 1);
    if k == 0 {
        assert(a * (2 * b - a) == 0) by (nonlinear_arith)
            requires
                a == 0,
        ;
    } else {
        // F(2k) = F(k) F(k + 1) + F(k - 1) F(k), and F(k - 1) = F(k + 1) - F(k)
        let p = fib((k - 1) as nat);
        lemma_fib_addition((k - 1) as nat, k);
        assert(a * b + p * a == a * (2 * b - a)) by (nonlinear_arith)
            requires
                b == a + p,
        ;
    }
}

/// The doubling identities on a pair of known values.
proof fn lemma_fib_double_pair(k: nat, a: nat, b: nat)
    requires
        fib(k) == a,
        fib(k + 1) == b,
    ensures
        fib(2 * k) == a * (2 * b - a),
        fib(2 * k + 1) == a * a + b * b,
        fib(2 * k + 2) == a * (2 * b - a) + a * a + b * b,
{
    lemma_fib_doubling(k);
}

/// The Fibonacci numbers at the largest index that fits in 256 bits and at
/// the next one.
pub proof fn lemma_fib_at_largest_exact_index()
    ensures
        fib(370)
            == 94611056096305838013295371573764256526437182762229865607320618320601813254535nat,
        fib(371)
            == 153083904475345790698149223310665389766178449653686710164582374234640876900329nat,
{
    // The indices follow the binary digits of 370: 1, 2, 5, 11, 23, 46, 92,
    // 185, 370.
    reveal_with_fuel(fib, 3);
    lemma_fib_double_pair(1, 1, 1);
    lemma_fib_double_pair(2, 1, 2);
    lemma_fib_double_pair(5, 5, 8);
    lemma_fib_double_pair(11, 89, 144);
    lemma_fib_double_pair(23, 28657, 46368);
    lemma_fib_double_pair(46, 1836311903, 2971215073);
    lemma_fib_double_pair(92, 7540113804746346429, 12200160415121876738);
    lemma_fib_double_pair(
        185,
        205697230343233228174223751303346572685nat,
        332825110087067562321196029789634457848nat,
    );
}

/// Every Fibonacci number up to the largest exact index fits in 256 bits, and
/// no later one does.
pub proof fn lemma_fib_fits_in_word(n: nat)
    ensures
        n <= largest_exact_index() <==> fib(n) < word_modulus(),
{
    lemma_fib_at_largest_exact_index();
    assert(fib(370) < word_modulus());
    assert(fib(371) >= word_modulus());
    if n <= 370 {
        lemma_fib_monotonic(n, 370);
    } else {
        lemma_fib_monotonic(371, n);
    }
}

/// One fast-doubling step carried out in arithmetic modulo `m` gives the
/// doubled pair modulo `m`.
pub proof fn lemma_doubling_step_mod(k: nat, a: nat, b: nat, m: nat)
    requires
        m > 0,
        a == fib(k) % m,
        b == fib(k + 1) % m,
    ensures
        (a * ((((b * 2) % m) - a) % (m as int))) % (m as int) == fib(2 * k) % m,
        (((a * a) % m) + ((b * b) % m)) % m == fib(2 * k + 1) % m,
{
    let fk = fib(k) as int;
    let fk1 = fib(k + 1) as int;
    let mi = m as int;
    let ai = a as int;
    let bi = b as int;
    lemma_fib_doubling(k);
    // the middle factor
    let twice = (bi * 2) % mi;
    assert(twice == (fk1 * 2) % mi) by {
        lemma_mul_mod_noop_left(fk1, 2, mi);
    }
    let factor = (twice - ai) % mi;
    assert(factor == (fk1 * 2 - fk) % mi) by {
        lemma_sub_mod_noop(fk1 * 2, fk, mi);
    }
    assert((ai * factor) % mi == (fk * (fk1 * 2 - fk)) % mi) by {
        lemma_mul_mod_noop(fk, fk1 * 2 - fk, mi);
    }
    assert(fk * (fk1 * 2 - fk) == fib(2 * k));
    // the sum of squares
    assert((ai * ai) % mi == (fk * fk) % mi) by {
        lemma_mul_mod_noop(fk, fk, mi);
    }
    assert((bi * bi) % mi == (fk1 * fk1) % mi) by {
        lemma_mul_mod_noop(fk1, fk1, mi);
    }
    assert((((ai * ai) % mi) + ((bi * bi) % mi)) % mi == (fk * fk + fk1 * fk1) % mi) by {
        lemma_add_mod_noop(fk * fk, fk1 * fk1, mi);
    }
}

} // verus!
