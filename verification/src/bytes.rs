//! Byte strings as big-endian numbers.

use vstd::prelude::*;

verus! {

/// The number that `bytes` write in base 256, most significant byte first.
pub open spec fn be_value(bytes: Seq<u8>) -> nat
    decreases bytes.len(),
{
    if bytes.len() == 0 {
        0
    } else {
        be_value(bytes.drop_last()) * 256 + bytes.last() as nat
    }
}

/// No bytes write zero, and a further byte is a further digit: what was there counts 256 times as
/// much.
pub proof fn law_be_value_is_positional(bytes: Seq<u8>, byte: u8)
    ensures
        be_value(Seq::<u8>::empty()) == 0,
        be_value(bytes.push(byte)) == 256 * be_value(bytes) + byte,
{
    assert(bytes.push(byte).drop_last() =~= bytes);
}

/// The number of values that `n` bytes can write.
pub open spec fn be_range(n: nat) -> nat
    decreases n,
{
    if n == 0 {
        1
    } else {
        be_range((n - 1) as nat) * 256
    }
}

/// `n` bytes write a number below `be_range(n)`.
pub proof fn lemma_be_value_bound(bytes: Seq<u8>)
    ensures
        be_value(bytes) < be_range(bytes.len()),
    decreases bytes.len(),
{
    if bytes.len() > 0 {
        lemma_be_value_bound(bytes.drop_last());
    }
}

/// More bytes write no fewer numbers.
pub proof fn lemma_be_range_monotone(m: nat, n: nat)
    requires
        m <= n,
    ensures
        be_range(m) <= be_range(n),
    decreases n,
{
    if m < n {
        lemma_be_range_monotone(m, (n - 1) as nat);
    }
}

/// Byte strings of one length write the same number only if they are the same bytes.
pub proof fn lemma_be_value_injective(a: Seq<u8>, b: Seq<u8>)
    requires
        a.len() == b.len(),
        be_value(a) == be_value(b),
    ensures
        a == b,
    decreases a.len(),
{
    if a.len() > 0 {
        lemma_be_value_injective(a.drop_last(), b.drop_last());
        assert(a == a.drop_last().push(a.last()));
        assert(b == b.drop_last().push(b.last()));
    } else {
        assert(a == b);
    }
}

/// The set of the first `n + 1` elements of a sequence is that of the first `n` and the next.
pub proof fn lemma_take_one_more<T>(s: Seq<T>, n: int)
    requires
        0 <= n < s.len(),
    ensures
        s.take(n + 1).to_set() == s.take(n).to_set().insert(s[n]),
{
    let shorter = s.take(n);
    let longer = s.take(n + 1);
    assert forall|x: T|
        longer.to_set().contains(x) == shorter.to_set().insert(s[n]).contains(x) by {
        if longer.contains(x) {
            let i = choose|i: int| 0 <= i < longer.len() && longer[i] == x;
            assert(i == n || shorter[i] == x);
        }
        if shorter.contains(x) {
            let i = choose|i: int| 0 <= i < shorter.len() && shorter[i] == x;
            assert(longer[i] == x);
        }
        assert(longer[n] == s[n]);
    }
    assert(longer.to_set() =~= shorter.to_set().insert(s[n]));
}

/// Copies a slice of exactly `N` bytes into an array.
pub fn array_from_slice<const N: usize>(slice: &[u8]) -> (array: [u8; N])
    requires
        slice@.len() == N,
    ensures
        array@ == slice@,
{
    let mut array: [u8; N] = [0u8; N];
    let mut i: usize = 0;
    while i < N
        invariant
            i <= N,
            slice@.len() == N,
            forall|j: int| 0 <= j < i ==> array@[j] == slice@[j],
        decreases N - i,
    {
        array[i] = slice[i];
        i = i + 1;
    }
    assert(array@ =~= slice@);
    array
}

} // verus!
