//! Compact unique-identifier generator.
//!
//! A generator owns a monotonic counter; each call to `generate` increments
//! the counter and encodes its bits, least significant first, as one of two
//! visually near-identical characters.  The n-th identifier issued has length
//! `floor(log2(n)) + 1`, and no two identifiers issued by one generator are
//! ever equal.

use vstd::prelude::*;
use vstd::string::*;

verus! {

/// Mathematical bit length minus one: `floor(log2(n))` for `n >= 1`.
pub open spec fn spec_log2(n: nat) -> nat
    decreases n,
{
    if n < 2 {
        0
    } else {
        1 + spec_log2(n / 2)
    }
}

/// The character encoding one bit of the counter: a set bit becomes `'l'`,
/// a clear bit becomes `'I'`.
pub open spec fn bit_char(b: nat) -> char {
    if b == 1 {
        'l'
    } else {
        'I'
    }
}

/// The identifier text issued for counter value `n`: the binary digits of
/// `n`, least significant first, each encoded by `bit_char`.
pub open spec fn id_chars(n: nat) -> Seq<char>
    decreases n,
{
    if n < 2 {
        seq![bit_char(n % 2)]
    } else {
        seq![bit_char(n % 2)] + id_chars(n / 2)
    }
}

/// The stream of the first `k` identifiers a fresh generator issues.
pub open spec fn id_sequence(k: nat) -> Seq<Seq<char>> {
    Seq::new(k, |i: int| id_chars((i + 1) as nat))
}

/// An opaque string token issued by an `IdentifierGenerator`.
pub struct Identifier {
    pub id: String,
}

/// Produces an unbounded sequence of unique, compact string identifiers
/// from a monotonic counter.
pub struct IdentifierGenerator {
    count: u32,
}

impl IdentifierGenerator {
    /// How many identifiers this generator has issued so far.
    pub closed spec fn counter(&self) -> u32 {
        self.count
    }

    pub fn new() -> (r: Self)
        ensures
            r.counter() == 0,
    {
        Self { count: 0 }
    }

    /// Issues the next identifier: increments the counter to `n` and returns
    /// the token `id_chars(n)`.  The result is a function of the counter
    /// alone, so identical call sequences on fresh generators yield
    /// identical identifier sequences.
    pub fn generate(&mut self) -> (r: Identifier)
        requires
            old(self).counter() < u32::MAX,
        ensures
            final(self).counter() == old(self).counter() + 1,
            r.id@ == id_chars(final(self).counter() as nat),
    {
        self.count = self.count + 1;
        let n = self.count;
        let mut id = String::new();
        let mut x: u32 = n;
        while x >= 2
            invariant
                1 <= x <= n,
                id@ + id_chars(x as nat) == id_chars(n as nat),
            decreases x,
        {
            let ghost prev = id@;
            push_bit(&mut id, x % 2);
            proof {
                assert(id_chars(x as nat) == seq![bit_char((x % 2) as nat)] + id_chars(
                    (x / 2) as nat,
                ));
                assert(id@ + id_chars((x / 2) as nat) =~= prev + id_chars(x as nat));
            }
            x = x / 2;
        }
        let ghost prev = id@;
        push_bit(&mut id, x % 2);
        proof {
            assert(id_chars(x as nat) == seq![bit_char((x % 2) as nat)]);
            assert(id@ =~= prev + id_chars(x as nat));
        }
        Identifier { id }
    }
}

/// Appends the character encoding one binary digit.
fn push_bit(id: &mut String, bit: u32)
    ensures
        final(id)@ == old(id)@ + seq![bit_char(bit as nat)],
{
    proof {
        reveal_strlit("l");
        reveal_strlit("I");
    }
    if bit == 1 {
        id.append("l");
    } else {
        id.append("I");
    }
    assert(id@ =~= old(id)@ + seq![bit_char(bit as nat)]);
}

/// Computes `floor(log2(v))` for `v >= 1` by successive halving.
pub fn log2_32(v: u32) -> (r: u32)
    requires
        v >= 1,
    ensures
        r as nat == spec_log2(v as nat),
{
    let mut x: u32 = v;
    let mut r: u32 = 0;
    proof {
        lemma_log2_le_half(v as nat);
    }
    while x >= 2
        invariant
            1 <= x <= v,
            r + spec_log2(x as nat) == spec_log2(v as nat),
            spec_log2(v as nat) <= v,
        decreases x,
    {
        x = x / 2;
        r = r + 1;
    }
    r
}

/// `floor(log2(n))` never exceeds `n / 2` (so in particular it fits
/// comfortably below any machine bound that `n` fits below).
proof fn lemma_log2_le_half(n: nat)
    ensures
        n >= 2 ==> spec_log2(n) <= n / 2,
    decreases n,
{
    if n >= 2 {
        lemma_log2_le_half(n / 2);
        assert(spec_log2(n) == 1 + spec_log2(n / 2));
        if n < 4 {
            assert(spec_log2((n / 2) as nat) == 0);
        } else {
            assert(2 * ((n / 2) / 2) + (n / 2) % 2 == n / 2);
        }
    }
}

/// The identifier for counter value `n` has exactly `floor(log2(n)) + 1`
/// characters.
pub proof fn lemma_id_chars_len(n: nat)
    ensures
        id_chars(n).len() == spec_log2(n) + 1,
    decreases n,
{
    if n >= 2 {
        lemma_id_chars_len(n / 2);
    }
}

/// Distinct counter values always yield distinct identifier texts: the
/// encoding of the counter is a bijection.
pub proof fn lemma_id_chars_injective(n: nat, m: nat)
    requires
        n >= 1,
        m >= 1,
        n != m,
    ensures
        id_chars(n) != id_chars(m),
    decreases n + m,
{
    lemma_id_chars_len(n);
    lemma_id_chars_len(m);
    if n < 2 && m < 2 {
        // impossible: both would be 1
    } else if n < 2 {
        // n == 1 has length 1, m >= 2 has length >= 2
        assert(spec_log2(m) >= 1);
    } else if m < 2 {
        assert(spec_log2(n) >= 1);
    } else {
        if id_chars(n) == id_chars(m) {
            let ln = id_chars(n).len() as int;
            if n / 2 == m / 2 {
                // low bits must differ, so the first characters differ
                assert(n == 2 * (n / 2) + n % 2);
                assert(m == 2 * (m / 2) + m % 2);
                assert(n % 2 != m % 2);
                assert(id_chars(n)[0] == bit_char(n % 2));
                assert(id_chars(m)[0] == bit_char(m % 2));
                assert(bit_char(n % 2) != bit_char(m % 2));
            } else {
                lemma_id_chars_injective(n / 2, m / 2);
                assert(id_chars(n).subrange(1, ln) =~= id_chars(n / 2));
                assert(id_chars(m).subrange(1, ln) =~= id_chars(m / 2));
            }
        }
    }
}

/// Law: `n` calls of `generate` on a fresh generator yield `n` pairwise
/// distinct identifiers, and the `i`-th of them (counting from 1) has
/// length exactly `floor(log2(i)) + 1`.
pub proof fn lemma_id_sequence_distinct(k: nat)
    ensures
        forall|i: int, j: int|
            0 <= i < j < k ==> id_sequence(k)[i] != id_sequence(k)[j],
        forall|i: int| 0 <= i < k ==> id_sequence(k)[i].len() == spec_log2((i + 1) as nat) + 1,
{
    assert forall|i: int, j: int| 0 <= i < j < k implies id_sequence(k)[i] != id_sequence(
        k,
    )[j] by {
        lemma_id_chars_injective((i + 1) as nat, (j + 1) as nat);
    }
    assert forall|i: int| 0 <= i < k implies id_sequence(k)[i].len() == spec_log2(
        (i + 1) as nat,
    ) + 1 by {
        lemma_id_chars_len((i + 1) as nat);
    }
}

} // verus!
