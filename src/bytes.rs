use vstd::prelude::*;

verus! {

/// The largest length the 32-bit signed wire length can carry.
pub const I32_MAX: usize = 2147483647;

/// The `n` low bytes of `v`, most significant first.
pub open spec fn be_bytes(v: u128, n: nat) -> Seq<u8>
    decreases n,
{
    if n == 0 {
        Seq::empty()
    } else {
        be_bytes(v / 256, (n - 1) as nat).push((v % 256) as u8)
    }
}

/// The `n` low bytes of `v`, least significant first.
pub open spec fn le_bytes(v: u128, n: nat) -> Seq<u8>
    decreases n,
{
    if n == 0 {
        Seq::empty()
    } else {
        seq![(v % 256) as u8] + le_bytes(v / 256, (n - 1) as nat)
    }
}

/// Four bytes of a 32-bit signed integer in network order (two's complement).
pub open spec fn be_i32(v: i32) -> Seq<u8> {
    be_bytes(v as u32 as u128, 4)
}

pub proof fn lemma_be_bytes_len(v: u128, n: nat)
    ensures
        be_bytes(v, n).len() == n,
    decreases n,
{
    if n > 0 {
        lemma_be_bytes_len(v / 256, (n - 1) as nat);
    }
}

pub proof fn lemma_le_bytes_len(v: u128, n: nat)
    ensures
        le_bytes(v, n).len() == n,
    decreases n,
{
    if n > 0 {
        lemma_le_bytes_len(v / 256, (n - 1) as nat);
    }
}

/// Appends the `n` low bytes of `v`, most significant first.
pub fn push_be(buf: &mut Vec<u8>, v: u128, n: usize)
    ensures
        final(buf)@ == old(buf)@ + be_bytes(v, n as nat),
    decreases n,
{
    if n > 0 {
        push_be(buf, v / 256, n - 1);
        buf.push((v % 256) as u8);
    } else {
        assert(old(buf)@ + be_bytes(v, 0) =~= old(buf)@);
    }
    proof {
        if n > 0 {
            assert(old(buf)@ + be_bytes(v, n as nat) =~= old(buf)@ + be_bytes(v / 256, (n - 1) as nat)
                + seq![(v % 256) as u8]);
        }
    }
}

/// Appends the `n` low bytes of `v`, least significant first.
pub fn push_le(buf: &mut Vec<u8>, v: u128, n: usize)
    ensures
        final(buf)@ == old(buf)@ + le_bytes(v, n as nat),
    decreases n,
{
    if n > 0 {
        buf.push((v % 256) as u8);
        push_le(buf, v / 256, n - 1);
        assert(old(buf)@ + le_bytes(v, n as nat) =~= old(buf)@.push((v % 256) as u8) + le_bytes(
            v / 256,
            (n - 1) as nat,
        ));
    } else {
        assert(old(buf)@ + le_bytes(v, 0) =~= old(buf)@);
    }
}

/// Appends every byte of `src`.
pub fn push_all(buf: &mut Vec<u8>, src: &[u8])
    ensures
        final(buf)@ == old(buf)@ + src@,
{
    let mut i: usize = 0;
    while i < src.len()
        invariant
            i <= src@.len(),
            buf@ == old(buf)@ + src@.subrange(0, i as int),
        decreases src@.len() - i,
    {
        buf.push(src[i]);
        i = i + 1;
        assert(buf@ =~= old(buf)@ + src@.subrange(0, i as int));
    }
    assert(src@.subrange(0, src@.len() as int) =~= src@);
}

/// Overwrites `buf[at..at + 4]` with the network-order bytes of `v`.
pub fn write_be_u32_at(buf: &mut Vec<u8>, at: usize, v: u32)
    requires
        at + 4 <= old(buf)@.len(),
    ensures
        final(buf)@ == old(buf)@.subrange(0, at as int) + be_bytes(v as u128, 4) + old(
            buf,
        )@.subrange(at + 4, old(buf)@.len() as int),
{
    let mut tmp: Vec<u8> = Vec::new();
    push_be(&mut tmp, v as u128, 4);
    proof {
        lemma_be_bytes_len(v as u128, 4);
    }
    let mut k: usize = 0;
    while k < 4
        invariant
            k <= 4,
            tmp@ == be_bytes(v as u128, 4),
            tmp@.len() == 4,
            at + 4 <= old(buf)@.len(),
            buf@.len() == old(buf)@.len(),
            at + 4 <= buf.len(),
            forall|j: int| 0 <= j < at ==> buf@[j] == old(buf)@[j],
            forall|j: int| at + 4 <= j < buf@.len() ==> buf@[j] == old(buf)@[j],
            forall|j: int| at <= j < at + k ==> buf@[j] == tmp@[j - at],
        decreases 4 - k,
    {
        buf.set(at + k, tmp[k]);
        k = k + 1;
    }
    assert(buf@ =~= old(buf)@.subrange(0, at as int) + be_bytes(v as u128, 4) + old(
        buf,
    )@.subrange(at + 4, old(buf)@.len() as int));
}

} // verus!
