//! Big-endian byte strings and their numeric values.
//!
//! The wire format stores every multi-byte field big-endian, so the codec is
//! built on one pair of spec functions: `be_val`, the value a byte string
//! denotes, and `be_bytes`, the fixed-width byte string of a value. The
//! executable reader and writer are proved against them.

use vstd::prelude::*;

verus! {

/// 256 to the power `n`: the number of distinct `n`-byte strings.
pub open spec fn pow256(n: nat) -> nat
    decreases n,
{
    if n == 0 {
        1
    } else {
        256 * pow256((n - 1) as nat)
    }
}

/// The value of a big-endian byte string; the last byte is least significant.
pub open spec fn be_val(s: Seq<u8>) -> nat
    decreases s.len(),
{
    if s.len() == 0 {
        0
    } else {
        (be_val(s.drop_last()) * 256 + s.last()) as nat
    }
}

/// The `n`-byte big-endian representation of `v`.
pub open spec fn be_bytes(v: nat, n: nat) -> Seq<u8>
    decreases n,
{
    if n == 0 {
        Seq::empty()
    } else {
        be_bytes(v / 256, (n - 1) as nat).push((v % 256) as u8)
    }
}

pub proof fn lemma_pow256_pos(n: nat)
    ensures
        pow256(n) >= 1,
    decreases n,
{
    if n > 0 {
        lemma_pow256_pos((n - 1) as nat);
    }
}

/// The powers of 256 the wire format needs: the field widths 4, 8 and 16.
pub proof fn lemma_pow256_widths()
    ensures
        pow256(4) == 0x1_0000_0000,
        pow256(8) == 0x1_0000_0000_0000_0000,
        pow256(16) == 0x1_0000_0000_0000_0000_0000_0000_0000_0000,
{
    reveal_with_fuel(pow256, 17);
}

pub proof fn lemma_pow256_increases(a: nat, b: nat)
    requires
        a <= b,
    ensures
        pow256(a) <= pow256(b),
    decreases b,
{
    if a < b {
        lemma_pow256_increases(a, (b - 1) as nat);
        lemma_pow256_pos((b - 1) as nat);
    }
}

/// A byte string of length `n` denotes a value below `pow256(n)`.
pub proof fn lemma_be_val_bound(s: Seq<u8>)
    ensures
        be_val(s) < pow256(s.len()),
    decreases s.len(),
{
    if s.len() > 0 {
        lemma_be_val_bound(s.drop_last());
    }
}

pub proof fn lemma_be_bytes_len(v: nat, n: nat)
    ensures
        be_bytes(v, n).len() == n,
    decreases n,
{
    if n > 0 {
        lemma_be_bytes_len(v / 256, (n - 1) as nat);
    }
}

/// Reading back the `n`-byte representation of `v` yields `v`.
pub proof fn lemma_be_bytes_val(v: nat, n: nat)
    requires
        v < pow256(n),
    ensures
        be_val(be_bytes(v, n)) == v,
    decreases n,
{
    if n > 0 {
        assert(v as int == 256 * ((v as int) / 256) + (v as int) % 256) by {
            vstd::arithmetic::div_mod::lemma_fundamental_div_mod(v as int, 256);
        };
        assert(v / 256 < pow256((n - 1) as nat));
        lemma_be_bytes_val(v / 256, (n - 1) as nat);
        lemma_be_bytes_len(v / 256, (n - 1) as nat);
        let s = be_bytes(v / 256, (n - 1) as nat);
        assert(be_bytes(v, n).drop_last() =~= s);
        assert(be_bytes(v, n).last() == (v % 256) as u8);
    }
}

/// Reads the `n` bytes at `start` as a big-endian unsigned value.
pub fn read_be(data: &[u8], start: usize, n: usize) -> (v: u128)
    requires
        n <= 16,
        start + n <= data@.len(),
    ensures
        v as nat == be_val(data@.subrange(start as int, start + n)),
{
    let dlen: usize = data.len();
    let mut v: u128 = 0;
    let mut i: usize = 0;
    proof {
        assert(data@.subrange(start as int, start as int) =~= Seq::<u8>::empty());
    }
    while i < n
        invariant
            i <= n <= 16,
            start + n <= dlen == data@.len(),
            v as nat == be_val(data@.subrange(start as int, start + i)),
        decreases n - i,
    {
        proof {
            lemma_be_val_bound(data@.subrange(start as int, start + i));
            lemma_pow256_increases((i + 1) as nat, 16);
            lemma_pow256_widths();
        }
        let b = data[start + i];
        proof {
            let pre = data@.subrange(start as int, start + i);
            let post = data@.subrange(start as int, start + i + 1);
            assert(post.drop_last() =~= pre);
            assert(post.last() == b);
        }
        v = v * 256 + (b as u128);
        i = i + 1;
    }
    v
}

/// Appends the `n`-byte big-endian representation of `v` to `out`.
pub fn write_be(out: &mut Vec<u8>, v: u128, n: usize)
    requires
        n <= 16,
        (v as nat) < pow256(n as nat),
        old(out)@.len() + n <= usize::MAX,
    ensures
        final(out)@ == old(out)@ + be_bytes(v as nat, n as nat),
    decreases n,
{
    if n == 0 {
        proof {
            assert(old(out)@ + be_bytes(v as nat, 0) =~= old(out)@);
        }
    } else {
        proof {
            assert(v as int == 256 * ((v as int) / 256) + (v as int) % 256) by {
                vstd::arithmetic::div_mod::lemma_fundamental_div_mod(v as int, 256);
            };
            assert(((v / 256) as nat) < pow256((n - 1) as nat));
        }
        write_be(out, v / 256, n - 1);
        out.push((v % 256) as u8);
        proof {
            assert(out@ =~= old(out)@ + be_bytes(v as nat, n as nat));
        }
    }
}

} // verus!
