//! Fixed-width big-endian integer fields of the binary wire format,
//! with proofs that reading inverts writing.

use vstd::prelude::*;

verus! {

/// The big-endian bytes of `x` over `n` bytes: the low byte stands last.
/// Only the low `8 * n` bits of `x` are represented.
pub open spec fn be_bytes(x: int, n: nat) -> Seq<u8>
    decreases n,
{
    if n == 0 {
        Seq::<u8>::empty()
    } else {
        be_bytes(x / 256, (n - 1) as nat) + seq![(x % 256) as u8]
    }
}

/// The integer value of a big-endian byte string.
pub open spec fn be_val(s: Seq<u8>) -> int
    decreases s.len(),
{
    if s.len() == 0 {
        0
    } else {
        be_val(s.drop_last()) * 256 + s.last()
    }
}

/// `n` bytes hold exactly the values below `256^n`.
pub open spec fn pow256(n: nat) -> int
    decreases n,
{
    if n == 0 {
        1
    } else {
        256 * pow256((n - 1) as nat)
    }
}

pub proof fn lemma_be_bytes_len(x: int, n: nat)
    ensures
        be_bytes(x, n).len() == n,
    decreases n,
{
    if n > 0 {
        lemma_be_bytes_len(x / 256, (n - 1) as nat);
    }
}

/// Reading back the written bytes yields the written value, for values
/// in range.
pub proof fn lemma_be_round_trip(x: int, n: nat)
    requires
        0 <= x < pow256(n),
    ensures
        be_val(be_bytes(x, n)) == x,
    decreases n,
{
    if n > 0 {
        let s = be_bytes(x, n);
        lemma_be_bytes_len(x, n);
        lemma_be_bytes_len(x / 256, (n - 1) as nat);
        assert(s.drop_last() =~= be_bytes(x / 256, (n - 1) as nat));
        assert(x / 256 < pow256((n - 1) as nat)) by {
            assert(pow256(n) == 256 * pow256((n - 1) as nat));
        };
        lemma_be_round_trip(x / 256, (n - 1) as nat);
        assert(s.last() == (x % 256) as u8);
        assert(0 <= x % 256 < 256);
        assert(be_val(s) == (x / 256) * 256 + x % 256);
    }
}

/// Every byte string values below `256^len`.
pub proof fn lemma_be_val_bound(s: Seq<u8>)
    ensures
        0 <= be_val(s) < pow256(s.len()),
    decreases s.len(),
{
    if s.len() > 0 {
        lemma_be_val_bound(s.drop_last());
    }
}

/// Writing the value read from bytes reproduces the bytes.
pub proof fn lemma_be_bytes_of_val(s: Seq<u8>)
    ensures
        be_bytes(be_val(s), s.len()) =~= s,
    decreases s.len(),
{
    if s.len() > 0 {
        let v = be_val(s);
        let head = be_val(s.drop_last());
        assert(v == head * 256 + s.last());
        assert(v % 256 == s.last() && v / 256 == head) by {
            assert(0 <= s.last() < 256);
        };
        lemma_be_bytes_of_val(s.drop_last());
    }
}

/// Append the `n`-byte big-endian form of `x` to `out`.
pub fn push_be(out: &mut Vec<u8>, x: u128, n: usize)
    ensures
        final(out)@ == old(out)@ + be_bytes(x as int, n as nat),
    decreases n,
{
    if n > 0 {
        push_be(out, x / 256, n - 1);
        out.push((x % 256) as u8);
        proof {
            assert(out@ =~= old(out)@ + be_bytes(x as int, n as nat));
        }
    } else {
        proof {
            assert(out@ =~= old(out)@ + be_bytes(x as int, 0));
        }
    }
}

/// Read all of `s` as one big-endian value.
pub fn read_be(s: &[u8]) -> (r: u128)
    requires
        s@.len() <= 16,
    ensures
        r as int == be_val(s@),
{
    let mut acc: u128 = 0;
    let mut i: usize = 0;
    let len: usize = s.len();
    proof {
        assert(s@.subrange(0, 0) =~= Seq::<u8>::empty());
    }
    while i < len
        invariant
            0 <= i <= len,
            len == s@.len() <= 16,
            acc as int == be_val(s@.subrange(0, i as int)),
            acc < pow256(i as nat),
        decreases len - i,
    {
        proof {
            assert(s@.subrange(0, i + 1).drop_last() =~= s@.subrange(0, i as int));
            assert(pow256(i as nat) * 256 == 256 * pow256(i as nat));
            assert(256 * pow256(i as nat) == pow256((i + 1) as nat));
            lemma_pow256_mono((i + 1) as nat, 16);
            assert(pow256(16) == 0x100000000000000000000000000000000) by {
                reveal_with_fuel(pow256, 17);
            };
        }
        acc = acc * 256 + (s[i] as u128);
        i = i + 1;
    }
    proof {
        assert(s@.subrange(0, len as int) =~= s@);
    }
    acc
}

pub proof fn lemma_pow256_mono(a: nat, b: nat)
    requires
        a <= b,
    ensures
        pow256(a) <= pow256(b),
    decreases b,
{
    if a < b && b > 0 {
        lemma_pow256_mono(a, (b - 1) as nat);
        lemma_pow256_pos((b - 1) as nat);
    }
}

pub proof fn lemma_pow256_pos(n: nat)
    ensures
        pow256(n) >= 1,
    decreases n,
{
    if n > 0 {
        lemma_pow256_pos((n - 1) as nat);
    }
}

} // verus!
