//! Big-endian byte encodings of unsigned integers, and small byte-vector
//! helpers shared by the wire codec and the handshake.
use vstd::prelude::*;
use vstd::arithmetic::power::pow;

verus! {

/// Value of a byte sequence read as a big-endian unsigned integer.
pub open spec fn be_val(s: Seq<u8>) -> nat
    decreases s.len(),
{
    if s.len() == 0 {
        0
    } else {
        (be_val(s.drop_last()) * 256 + s.last()) as nat
    }
}

/// The `n` low-order base-256 digits of `x`, most significant first.
pub open spec fn be_bytes(x: nat, n: nat) -> Seq<u8>
    decreases n,
{
    if n == 0 {
        Seq::empty()
    } else {
        be_bytes(x / 256, (n - 1) as nat) + seq![(x % 256) as u8]
    }
}

proof fn lemma_pow256_step(e: nat)
    ensures
        pow(256, (e + 1) as nat) == 256 * pow(256, e),
{
    vstd::arithmetic::power::lemma_pow1(256);
    vstd::arithmetic::power::lemma_pow_adds(256, 1, e);
}

pub proof fn lemma_be_bytes_len(x: nat, n: nat)
    ensures
        be_bytes(x, n).len() == n,
    decreases n,
{
    if n > 0 {
        lemma_be_bytes_len(x / 256, (n - 1) as nat);
    }
}

/// Reading back the digits of `x` recovers `x`, as long as `x` has no more
/// than `n` digits.
pub proof fn lemma_be_val_be_bytes(x: nat, n: nat)
    requires
        x < pow(256, n),
    ensures
        be_val(be_bytes(x, n)) == x,
    decreases n,
{
    if n == 0 {
        assert(pow(256, 0) == 1) by {
            vstd::arithmetic::power::lemma_pow0(256);
        }
    } else {
        let q = x / 256;
        assert(pow(256, n) == 256 * pow(256, (n - 1) as nat)) by {
            lemma_pow256_step((n - 1) as nat);
        }
        assert(q < pow(256, (n - 1) as nat)) by (nonlinear_arith)
            requires
                x < pow(256, n),
                q == x / 256,
                pow(256, n) == 256 * pow(256, (n - 1) as nat),
        {}
        lemma_be_val_be_bytes(q, (n - 1) as nat);
        lemma_be_bytes_len(q, (n - 1) as nat);
        let s = be_bytes(x, n);
        assert(s.drop_last() =~= be_bytes(q, (n - 1) as nat));
        assert(s.last() == x % 256);
    }
}

pub proof fn lemma_pow256_4()
    ensures
        pow(256, 4) == 0x100000000,
{
    reveal_with_fuel(pow, 5);
}

pub proof fn lemma_pow256_16()
    ensures
        pow(256, 16) == 0x100000000000000000000000000000000,
{
    reveal_with_fuel(pow, 17);
}

/// Appends all of `src` to `dst`.
pub fn push_all(dst: &mut Vec<u8>, src: &[u8])
    ensures
        final(dst)@ == old(dst)@ + src@,
{
    let mut i: usize = 0;
    while i < src.len()
        invariant
            i <= src.len(),
            dst@ == old(dst)@ + src@.take(i as int),
        decreases src.len() - i,
    {
        dst.push(src[i]);
        i = i + 1;
        proof {
            assert(old(dst)@ + src@.take(i as int) =~= (old(dst)@ + src@.take(i - 1)).push(
                src@[i - 1],
            ));
        }
    }
    proof {
        assert(old(dst)@ + src@.take(src@.len() as int) =~= old(dst)@ + src@);
    }
}

/// Appends the 4 big-endian bytes of `x` to `out`.
pub fn push_u32_be(out: &mut Vec<u8>, x: u32)
    ensures
        final(out)@ == old(out)@ + be_bytes(x as nat, 4),
{
    let b0 = (x / 0x1000000) as u8;
    let b1 = ((x / 0x10000) % 256) as u8;
    let b2 = ((x / 0x100) % 256) as u8;
    let b3 = (x % 256) as u8;
    out.push(b0);
    out.push(b1);
    out.push(b2);
    out.push(b3);
    proof {
        reveal_with_fuel(be_bytes, 3);
        let n = x as nat;
        assert(n / 256 / 256 == n / 0x10000 && n / 256 / 256 / 256 == n / 0x1000000 && n
            / 0x1000000 < 256) by (nonlinear_arith)
            requires
                n < 0x100000000,
        {}
        assert(be_bytes(n / 0x1000000, 1) =~= seq![b0]);
        assert(be_bytes(n / 0x10000, 2) =~= seq![b0, b1]);
        assert(be_bytes(n / 256, 3) =~= seq![b0, b1, b2]);
        assert(be_bytes(n, 4) =~= seq![b0, b1, b2, b3]);
        assert(out@ =~= old(out)@ + be_bytes(n, 4));
    }
}

/// Appends the 16 big-endian bytes of `x` to `out`.
pub fn push_u128_be(out: &mut Vec<u8>, x: u128)
    ensures
        final(out)@ == old(out)@ + be_bytes(x as nat, 16),
{
    let mut tail: Vec<u8> = Vec::new();
    let mut v: u128 = x;
    let mut i: usize = 0;
    while i < 16
        invariant
            i <= 16,
            be_bytes(v as nat, (16 - i) as nat) + tail@ == be_bytes(x as nat, 16),
        decreases 16 - i,
    {
        tail.insert(0, (v % 256) as u8);
        v = v / 256;
        i = i + 1;
        proof {
            assert(tail@ =~= seq![tail@[0]] + tail@.skip(1));
            assert(be_bytes(v as nat, (16 - i) as nat) + tail@ =~= be_bytes(
                (v * 256 + tail@[0]) as nat,
                (17 - i) as nat,
            ) + tail@.skip(1));
        }
    }
    proof {
        assert(be_bytes(v as nat, 0) + tail@ =~= tail@);
    }
    push_all(out, tail.as_slice());
}

/// Reads 4 bytes as a big-endian `u32`.
pub fn u32_from_be(s: &[u8]) -> (x: u32)
    requires
        s@.len() == 4,
    ensures
        x as nat == be_val(s@),
{
    proof {
        vstd::arithmetic::power::lemma_pow0(256);
    }
    let mut acc: u32 = 0;
    let mut i: usize = 0;
    while i < 4
        invariant
            i <= 4,
            s@.len() == 4,
            acc as nat == be_val(s@.take(i as int)),
            acc < pow(256, i as nat),
        decreases 4 - i,
    {
        proof {
            assert(pow(256, i as nat) * 256 == pow(256, (i + 1) as nat)) by {
                lemma_pow256_step(i as nat);
            }
            assert(pow(256, (i + 1) as nat) <= pow(256, 4)) by {
                vstd::arithmetic::power::lemma_pow_increases(256, (i + 1) as nat, 4);
            }
            assert(acc as nat * 256 + 255 < pow(256, (i + 1) as nat)) by (nonlinear_arith)
                requires
                    (acc as nat) < pow(256, i as nat),
                    pow(256, i as nat) * 256 == pow(256, (i + 1) as nat),
            {}
            assert(pow(256, 4) == 0x100000000) by {
                reveal_with_fuel(pow, 5);
            }
        }
        acc = acc * 256 + (s[i] as u32);
        i = i + 1;
        proof {
            assert(s@.take(i as int).drop_last() =~= s@.take(i - 1));
        }
    }
    proof {
        assert(s@.take(4) =~= s@);
    }
    acc
}

/// Reads 16 bytes as a big-endian `u128`.
pub fn u128_from_be(s: &[u8]) -> (x: u128)
    requires
        s@.len() == 16,
    ensures
        x as nat == be_val(s@),
{
    proof {
        vstd::arithmetic::power::lemma_pow0(256);
    }
    let mut acc: u128 = 0;
    let mut i: usize = 0;
    while i < 16
        invariant
            i <= 16,
            s@.len() == 16,
            acc as nat == be_val(s@.take(i as int)),
            acc < pow(256, i as nat),
        decreases 16 - i,
    {
        proof {
            assert(pow(256, i as nat) * 256 == pow(256, (i + 1) as nat)) by {
                lemma_pow256_step(i as nat);
            }
            assert(pow(256, (i + 1) as nat) <= pow(256, 16)) by {
                vstd::arithmetic::power::lemma_pow_increases(256, (i + 1) as nat, 16);
            }
            assert(acc as nat * 256 + 255 < pow(256, (i + 1) as nat)) by (nonlinear_arith)
                requires
                    (acc as nat) < pow(256, i as nat),
                    pow(256, i as nat) * 256 == pow(256, (i + 1) as nat),
            {}
            assert(pow(256, 16) == 0x100000000000000000000000000000000) by {
                reveal_with_fuel(pow, 17);
            }
        }
        acc = acc * 256 + (s[i] as u128);
        i = i + 1;
        proof {
            assert(s@.take(i as int).drop_last() =~= s@.take(i - 1));
        }
    }
    proof {
        assert(s@.take(16) =~= s@);
    }
    acc
}

} // verus!
