//! Little-endian byte codecs for the fixed-width integers of the record
//! layouts, together with their round-trip laws.

use vstd::prelude::*;
use vstd::arithmetic::div_mod::{lemma_fundamental_div_mod, lemma_fundamental_div_mod_converse};
use vstd::arithmetic::mul::lemma_mul_inequality;

verus! {

/// `256 ^ n`.
pub open spec fn pow256(n: nat) -> int
    decreases n,
{
    if n == 0 {
        1
    } else {
        256 * pow256((n - 1) as nat)
    }
}

/// The `n` little-endian base-256 digits of `x` (low digit first).
pub open spec fn le_bytes(x: int, n: nat) -> Seq<u8>
    recommends
        0 <= x,
    decreases n,
{
    if n == 0 {
        Seq::empty()
    } else {
        seq![(x % 256) as u8] + le_bytes(x / 256, (n - 1) as nat)
    }
}

/// The value of a little-endian base-256 digit string.
pub open spec fn le_val(b: Seq<u8>) -> int
    decreases b.len(),
{
    if b.len() == 0 {
        0
    } else {
        b[0] + 256 * le_val(b.drop_first())
    }
}

/// `n` zero bytes.
pub open spec fn zero_bytes(n: int) -> Seq<u8> {
    Seq::new(if n >= 0 { n as nat } else { 0 }, |i: int| 0u8)
}

pub proof fn lemma_le_bytes_len(x: int, n: nat)
    ensures
        le_bytes(x, n).len() == n,
    decreases n,
{
    if n > 0 {
        lemma_le_bytes_len(x / 256, (n - 1) as nat);
    }
}

pub proof fn lemma_le_val_bound(b: Seq<u8>)
    ensures
        0 <= le_val(b) < pow256(b.len()),
    decreases b.len(),
{
    if b.len() == 0 {
    } else {
        lemma_le_val_bound(b.drop_first());
        let t = le_val(b.drop_first());
        assert(256 * t <= 256 * (pow256((b.len() - 1) as nat) - 1)) by {
            lemma_mul_inequality(t, pow256((b.len() - 1) as nat) - 1, 256);
        }
    }
}

/// Decoding the digits of `x` gives back `x`.
pub proof fn lemma_le_val_le_bytes(x: int, n: nat)
    requires
        0 <= x < pow256(n),
    ensures
        le_val(le_bytes(x, n)) == x,
    decreases n,
{
    if n == 0 {
    } else {
        assert(x / 256 < pow256((n - 1) as nat)) by {
            if x / 256 >= pow256((n - 1) as nat) {
                lemma_fundamental_div_mod(x, 256);
                assert(256 * (x / 256) >= 256 * pow256((n - 1) as nat)) by {
                    lemma_mul_inequality(pow256((n - 1) as nat), x / 256, 256);
                }
            }
        }
        assert(x / 256 >= 0) by {
            lemma_fundamental_div_mod(x, 256);
        }
        lemma_le_val_le_bytes(x / 256, (n - 1) as nat);
        let b = le_bytes(x, n);
        assert(b.drop_first() =~= le_bytes(x / 256, (n - 1) as nat));
        lemma_fundamental_div_mod(x, 256);
    }
}

/// Encoding the value of an `n`-digit string gives back the string.
pub proof fn lemma_le_bytes_le_val(b: Seq<u8>)
    ensures
        le_bytes(le_val(b), b.len()) == b,
    decreases b.len(),
{
    if b.len() == 0 {
        assert(le_bytes(le_val(b), b.len()) =~= b);
    } else {
        let x = le_val(b);
        let t = le_val(b.drop_first());
        lemma_le_val_bound(b.drop_first());
        lemma_fundamental_div_mod_converse(x, 256, t, b[0] as int);
        lemma_le_bytes_le_val(b.drop_first());
        assert(le_bytes(x, b.len()) =~= seq![(x % 256) as u8] + le_bytes(x / 256, (b.len() - 1) as nat));
        assert(le_bytes(x, b.len()) =~= b);
    }
}

/// The digits of zero are all zero.
pub proof fn lemma_le_bytes_zero(n: nat)
    ensures
        le_bytes(0, n) == zero_bytes(n as int),
    decreases n,
{
    if n == 0 {
        assert(le_bytes(0, n) =~= zero_bytes(n as int));
    } else {
        lemma_le_bytes_zero((n - 1) as nat);
        assert(le_bytes(0, n) =~= zero_bytes(n as int));
    }
}

pub proof fn lemma_pow256_values()
    ensures
        pow256(4) == 0x1_0000_0000,
        pow256(8) == 0x1_0000_0000_0000_0000,
{
    reveal_with_fuel(pow256, 9);
}

/// Reads `n <= 8` little-endian bytes at offset `i`.
pub fn read_le_at(b: &Vec<u8>, i: usize, n: usize) -> (r: u64)
    requires
        n <= 8,
        i + n <= b@.len(),
    ensures
        r as int == le_val(b@.subrange(i as int, i + n)),
{
    proof {
        lemma_pow256_values();
    }
    let blen: usize = b.len();
    let mut acc: u64 = 0;
    let mut k: usize = n;
    while k > 0
        invariant
            k <= n <= 8,
            blen == b@.len(),
            i + n <= blen,
            acc as int == le_val(b@.subrange(i + k, i + n)),
            acc < pow256((n - k) as nat),
            pow256(8) == 0x1_0000_0000_0000_0000,
        decreases k,
    {
        k = k - 1;
        let s = Ghost(b@.subrange(i + k, i + n));
        proof {
            assert(s@.drop_first() =~= b@.subrange(i + k + 1, i + n));
            assert(pow256((n - k) as nat) == 256 * pow256((n - k - 1) as nat));
            assert(256 * (acc as int) <= 256 * (pow256((n - k - 1) as nat) - 1)) by {
                lemma_mul_inequality(acc as int, pow256((n - k - 1) as nat) - 1, 256);
            }
            assert(pow256((n - k) as nat) <= pow256(8)) by {
                lemma_pow256_increases((n - k) as nat, 8);
            }
        }
        acc = b[i + k] as u64 + 256 * acc;
    }
    proof {
        assert(b@.subrange(i + 0, i + n) =~= b@.subrange(i as int, i + n));
    }
    acc
}

pub proof fn lemma_pow256_increases(m: nat, n: nat)
    requires
        m <= n,
    ensures
        pow256(m) <= pow256(n),
    decreases n,
{
    if m < n && n > 0 {
        lemma_pow256_increases(m, (n - 1) as nat);
        lemma_pow256_pos((n - 1) as nat);
        assert(pow256((n - 1) as nat) <= 256 * pow256((n - 1) as nat)) by {
            lemma_mul_inequality(1, 256, pow256((n - 1) as nat));
        }
    }
}

pub proof fn lemma_pow256_pos(n: nat)
    ensures
        pow256(n) >= 1,
    decreases n,
{
    if n > 0 {
        lemma_pow256_pos((n - 1) as nat);
        assert(1 * pow256((n - 1) as nat) <= 256 * pow256((n - 1) as nat)) by {
            lemma_mul_inequality(1, 256, pow256((n - 1) as nat));
        }
    }
}

/// Appends the `n <= 8` little-endian bytes of `x` to `out`.
pub fn push_le_bytes(out: &mut Vec<u8>, x: u64, n: usize)
    requires
        n <= 8,
    ensures
        final(out)@ == old(out)@ + le_bytes(x as int, n as nat),
{
    let ghost base = out@;
    let mut cur: u64 = x;
    let mut j: usize = 0;
    while j < n
        invariant
            j <= n <= 8,
            out@.len() == base.len() + j,
            base + le_bytes(x as int, n as nat) =~= out@ + le_bytes(cur as int, (n - j) as nat),
        decreases n - j,
    {
        let d: u8 = (cur % 256) as u8;
        proof {
            assert(le_bytes(cur as int, (n - j) as nat) =~= seq![d] + le_bytes(cur as int / 256, (n - j - 1) as nat));
            assert((out@ + le_bytes(cur as int, (n - j) as nat)) =~= (out@.push(d) + le_bytes(
                cur as int / 256,
                (n - j - 1) as nat,
            )));
        }
        out.push(d);
        cur = cur / 256;
        j = j + 1;
    }
    proof {
        assert(base + le_bytes(x as int, n as nat) =~= out@);
    }
}

/// Copies `b[i .. j]` out as a fresh vector.
pub fn sub_vec(b: &Vec<u8>, i: usize, j: usize) -> (r: Vec<u8>)
    requires
        i <= j <= b@.len(),
    ensures
        r@ == b@.subrange(i as int, j as int),
{
    vstd::slice::slice_to_vec(vstd::slice::slice_subrange(b.as_slice(), i, j))
}

/// Overwrites the front of `dst` with `src`, keeping the tail.
pub fn write_prefix(dst: &mut Vec<u8>, src: &Vec<u8>)
    requires
        src@.len() <= old(dst)@.len(),
    ensures
        final(dst)@ == src@ + old(dst)@.skip(src@.len() as int),
{
    let mut out: Vec<u8> = Vec::new();
    out.extend_from_slice(src.as_slice());
    let mut i: usize = src.len();
    while i < dst.len()
        invariant
            src@.len() <= i <= dst@.len(),
            dst@ == old(dst)@,
            out@ == src@ + dst@.subrange(src@.len() as int, i as int),
        decreases dst@.len() - i,
    {
        let d: u8 = dst[i];
        proof {
            assert(src@ + dst@.subrange(src@.len() as int, i + 1) =~= out@.push(d));
        }
        out.push(d);
        i = i + 1;
    }
    proof {
        assert(out@ =~= src@ + old(dst)@.skip(src@.len() as int));
    }
    *dst = out;
}

/// Byte-string equality.
pub fn eq_bytes(a: &Vec<u8>, b: &Vec<u8>) -> (r: bool)
    ensures
        r == (a@ == b@),
{
    if a.len() != b.len() {
        return false;
    }
    let mut i: usize = 0;
    while i < a.len()
        invariant
            i <= a@.len() == b@.len(),
            forall|j: int| 0 <= j < i ==> a@[j] == b@[j],
        decreases a@.len() - i,
    {
        if a[i] != b[i] {
            return false;
        }
        i = i + 1;
    }
    proof {
        assert(a@ =~= b@);
    }
    true
}

/// Builds a vector of `n` zero bytes.
pub fn zero_vec(n: usize) -> (r: Vec<u8>)
    ensures
        r@ == zero_bytes(n as int),
{
    let mut out: Vec<u8> = Vec::new();
    let mut i: usize = 0;
    while i < n
        invariant
            i <= n,
            out@ == zero_bytes(i as int),
        decreases n - i,
    {
        proof {
            assert(zero_bytes(i + 1) =~= zero_bytes(i as int).push(0u8));
        }
        out.push(0u8);
        i = i + 1;
    }
    out
}

} // verus!
