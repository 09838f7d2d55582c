use vstd::prelude::*;

verus! {

/// `256^n`.
pub open spec fn pow256(n: nat) -> nat
    decreases n,
{
    if n == 0 {
        1
    } else {
        256 * pow256((n - 1) as nat)
    }
}

/// The bytes of `s` read as a big-endian number.
pub open spec fn be_value(s: Seq<u8>) -> nat
    decreases s.len(),
{
    if s.len() == 0 {
        0
    } else {
        be_value(s.drop_last()) * 256 + s.last() as nat
    }
}

/// The last eight bytes of `s`, or all of it when it is shorter.
pub open spec fn tail8(s: Seq<u8>) -> Seq<u8> {
    if s.len() <= 8 {
        s
    } else {
        s.subrange(s.len() - 8, s.len() as int)
    }
}

proof fn lemma_pow256_bound(n: nat)
    requires
        n <= 8,
    ensures
        pow256(n) <= 0x1_0000_0000_0000_0000,
    decreases 8 - n,
{
    if n < 8 {
        lemma_pow256_bound(n + 1);
        assert(pow256(n + 1) == 256 * pow256(n));
    } else {
        reveal_with_fuel(pow256, 9);
    }
}

/// The identifier on the ring of a peer whose peer id has the bytes
/// `bytes`: their last eight bytes, big-endian.
pub fn location_of(bytes: &Vec<u8>) -> (r: u64)
    ensures
        r as nat == be_value(tail8(bytes@)),
{
    let n = bytes.len();
    let start: usize = if n <= 8 {
        0
    } else {
        n - 8
    };
    let mut acc: u64 = 0;
    let mut i: usize = start;
    assert(bytes@.subrange(start as int, start as int) == Seq::<u8>::empty());
    while i < n
        invariant
            n == bytes@.len(),
            start <= i <= n,
            n - start <= 8,
            acc as nat == be_value(bytes@.subrange(start as int, i as int)),
            acc < pow256((i - start) as nat),
        decreases n - i,
    {
        let ghost k = (i - start) as nat;
        let b = bytes[i];
        proof {
            lemma_pow256_bound(k + 1);
            assert(pow256(k + 1) == 256 * pow256(k));
            assert(acc * 256 + b < 256 * pow256(k)) by (nonlinear_arith)
                requires
                    acc < pow256(k),
                    b < 256,
            ;
            assert(bytes@.subrange(start as int, i + 1).drop_last() == bytes@.subrange(
                start as int,
                i as int,
            ));
        }
        acc = acc * 256 + b as u64;
        i += 1;
    }
    assert(bytes@.subrange(start as int, n as int) == tail8(bytes@));
    acc
}

} // verus!
