//! Big-endian numbers and cursors over byte slices.

use vstd::prelude::*;
use vstd::slice::slice_subrange;

verus! {

/// 256 to the power `n`: how many values `n` bytes can take.
pub open spec fn pow256(n: nat) -> nat
    decreases n,
{
    if n == 0 {
        1
    } else {
        256 * pow256((n - 1) as nat)
    }
}

/// The number that `bytes` spell, most significant byte first.
pub open spec fn be_value(bytes: Seq<u8>) -> nat
    decreases bytes.len(),
{
    if bytes.len() == 0 {
        0
    } else {
        be_value(bytes.drop_last()) * 256 + bytes.last() as nat
    }
}

/// The lowest `n` bytes of `x`, most significant byte first.
pub open spec fn be_bytes(x: nat, n: nat) -> Seq<u8>
    decreases n,
{
    if n == 0 {
        seq![]
    } else {
        be_bytes(x / 256, (n - 1) as nat).push((x % 256) as u8)
    }
}

/// The first `n` bytes of `s` and what follows them, if there are that many.
pub open spec fn split_first(s: Seq<u8>, n: nat) -> Option<(Seq<u8>, Seq<u8>)> {
    if n <= s.len() {
        Some((s.take(n as int), s.skip(n as int)))
    } else {
        None
    }
}

/// `n` bytes hold exactly `n` bytes.
pub proof fn lemma_be_bytes_len(x: nat, n: nat)
    ensures
        be_bytes(x, n).len() == n,
    decreases n,
{
    if n > 0 {
        lemma_be_bytes_len(x / 256, (n - 1) as nat);
    }
}

/// Reading a number back gives what was written, for every number that fits.
pub proof fn lemma_be_roundtrip(x: nat, n: nat)
    requires
        x < pow256(n),
    ensures
        be_bytes(x, n).len() == n,
        be_value(be_bytes(x, n)) == x,
    decreases n,
{
    lemma_be_bytes_len(x, n);
    if n > 0 {
        lemma_be_roundtrip(x / 256, (n - 1) as nat);
        let head = be_bytes(x / 256, (n - 1) as nat);
        assert(be_bytes(x, n).drop_last() =~= head);
    }
}

/// `n` bytes spell a number below `pow256(n)`.
pub proof fn lemma_be_value_bound(bytes: Seq<u8>)
    ensures
        be_value(bytes) < pow256(bytes.len()),
    decreases bytes.len(),
{
    if bytes.len() > 0 {
        lemma_be_value_bound(bytes.drop_last());
    }
}

/// The powers that bound the integer types of the wire format.
pub proof fn lemma_pow256_values()
    ensures
        pow256(0) == 1,
        pow256(1) == 0x100,
        pow256(2) == 0x1_0000,
        pow256(4) == 0x1_0000_0000,
        pow256(8) == 0x1_0000_0000_0000_0000,
{
    reveal_with_fuel(pow256, 9);
}

/// `pow256` grows with its argument.
pub proof fn lemma_pow256_monotonic(m: nat, n: nat)
    requires
        m <= n,
    ensures
        0 < pow256(m) <= pow256(n),
    decreases n,
{
    if m < n {
        lemma_pow256_monotonic(m, (n - 1) as nat);
    } else if m > 0 {
        lemma_pow256_monotonic((m - 1) as nat, (n - 1) as nat);
    }
}

/// Appends `bytes` to `out`.
pub fn push_all(out: &mut Vec<u8>, bytes: &[u8])
    ensures
        final(out)@ == old(out)@ + bytes@,
{
    out.extend_from_slice(bytes);
    assert(out@ =~= old(out)@ + bytes@);
}

/// Appends the lowest `n` bytes of `x` to `out`, most significant first.
pub fn push_be(out: &mut Vec<u8>, x: u64, n: usize)
    ensures
        final(out)@ == old(out)@ + be_bytes(x as nat, n as nat),
    decreases n,
{
    if n > 0 {
        push_be(out, x / 256, n - 1);
        out.push((x % 256) as u8);
    }
    assert(out@ =~= old(out)@ + be_bytes(x as nat, n as nat));
}

/// Takes the next `n` bytes off `src`; leaves `src` alone if it is shorter.
pub fn read_bytes<'a>(src: &mut &'a [u8], n: usize) -> (r: Option<&'a [u8]>)
    ensures
        match split_first(old(src)@, n as nat) {
            Some((head, rest)) => r matches Some(b) && b@ == head && final(src)@ == rest,
            None => r is None && *final(src) == *old(src),
        },
{
    let all: &'a [u8] = *src;
    if n <= all.len() {
        let head = slice_subrange(all, 0, n);
        *src = slice_subrange(all, n, all.len());
        assert(head@ =~= all@.take(n as int));
        assert(src@ =~= all@.skip(n as int));
        Some(head)
    } else {
        None
    }
}

/// Takes an `n`-byte big-endian number off `src`; leaves `src` alone if it
/// is shorter.
pub fn read_be(src: &mut &[u8], n: usize) -> (r: Option<u64>)
    requires
        n <= 8,
    ensures
        match split_first(old(src)@, n as nat) {
            Some((head, rest)) => r matches Some(x) && x == be_value(head) && final(src)@ == rest,
            None => r is None && *final(src) == *old(src),
        },
{
    match read_bytes(src, n) {
        None => None,
        Some(b) => {
            let mut x: u64 = 0;
            let mut i: usize = 0;
            proof {
                lemma_pow256_values();
            }
            while i < n
                invariant
                    i <= n <= 8,
                    b@.len() == n,
                    x == be_value(b@.take(i as int)),
                    pow256(8) == 0x1_0000_0000_0000_0000,
                decreases n - i,
            {
                proof {
                    let next = b@.take(i + 1);
                    assert(next.drop_last() =~= b@.take(i as int));
                    lemma_be_value_bound(next);
                    lemma_pow256_monotonic((i + 1) as nat, 8);
                }
                x = x * 256 + b[i] as u64;
                i = i + 1;
            }
            assert(b@.take(n as int) =~= b@);
            Some(x)
        },
    }
}

} // verus!
