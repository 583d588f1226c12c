//! The byte encodings that a commitment is made of: little-endian integers
//! and the variable-length integer that precedes a script.
//!
//! Every encoding here can be read back: what was encoded is determined by the
//! bytes, also when other bytes follow.

use vstd::prelude::*;

verus! {

/// The `n` low bytes of `v`, least significant first.
pub open spec fn le_bytes(v: nat, n: nat) -> Seq<u8>
    decreases n,
{
    if n == 0 {
        Seq::empty()
    } else {
        seq![(v % 256) as u8] + le_bytes(v / 256, (n - 1) as nat)
    }
}

/// The number that little-endian bytes stand for.
pub open spec fn le_value(bytes: Seq<u8>) -> nat
    decreases bytes.len(),
{
    if bytes.len() == 0 {
        0
    } else {
        bytes[0] as nat + 256 * le_value(bytes.drop_first())
    }
}

/// `v` fits in `n` bytes.
pub open spec fn fits(v: nat, n: nat) -> bool
    decreases n,
{
    if n == 0 {
        v == 0
    } else {
        fits(v / 256, (n - 1) as nat)
    }
}

/// Four bytes, least significant first.
pub open spec fn u32_le(v: u32) -> Seq<u8> {
    le_bytes(v as nat, 4)
}

/// Eight bytes, least significant first.
pub open spec fn u64_le(v: u64) -> Seq<u8> {
    le_bytes(v as nat, 8)
}

/// The unsigned number with the same 32 bits as `v` in two's complement.
pub open spec fn twos_complement(v: i32) -> nat {
    if v >= 0 {
        v as nat
    } else {
        (v + 0x1_0000_0000) as nat
    }
}

/// Four bytes of two's complement, least significant first.
pub open spec fn i32_le(v: i32) -> Seq<u8> {
    le_bytes(twos_complement(v), 4)
}

/// The variable-length integer: one byte below `0xFD`, else a marker byte and
/// two, four or eight bytes, least significant first.
pub open spec fn var_int(n: nat) -> Seq<u8> {
    if n <= 0xFC {
        seq![n as u8]
    } else if n <= 0xFFFF {
        seq![0xFDu8] + le_bytes(n, 2)
    } else if n <= 0xFFFF_FFFF {
        seq![0xFEu8] + le_bytes(n, 4)
    } else {
        seq![0xFFu8] + le_bytes(n, 8)
    }
}

/// `le_bytes(v, n)` has `n` bytes.
pub proof fn lemma_le_bytes_len(v: nat, n: nat)
    ensures
        le_bytes(v, n).len() == n,
    decreases n,
{
    if n > 0 {
        lemma_le_bytes_len(v / 256, (n - 1) as nat);
    }
}

/// A number that fits in `n` bytes is read back from its `n` bytes.
pub proof fn lemma_le_round_trip(v: nat, n: nat)
    requires
        fits(v, n),
    ensures
        le_value(le_bytes(v, n)) == v,
    decreases n,
{
    if n > 0 {
        let rest = le_bytes(v / 256, (n - 1) as nat);
        lemma_le_round_trip(v / 256, (n - 1) as nat);
        let all = le_bytes(v, n);
        assert(all.drop_first() =~= rest);
        assert(all[0] == (v % 256) as u8);
    }
}

/// Two numbers that fit in `n` bytes and have the same `n` bytes are equal.
pub proof fn lemma_le_injective(a: nat, b: nat, n: nat)
    requires
        fits(a, n),
        fits(b, n),
        le_bytes(a, n) == le_bytes(b, n),
    ensures
        a == b,
{
    lemma_le_round_trip(a, n);
    lemma_le_round_trip(b, n);
}

/// Every `u32` fits in four bytes, every `u64` in eight.
pub proof fn lemma_fits(v: nat)
    ensures
        v <= 0xFFFF ==> fits(v, 2),
        v <= u32::MAX ==> fits(v, 4),
        v <= u64::MAX ==> fits(v, 8),
{
    reveal_with_fuel(fits, 9);
}

/// Where two byte strings are equal and start with heads of one length, the
/// heads are equal and so are the rests.
pub proof fn lemma_split(a: Seq<u8>, x: Seq<u8>, b: Seq<u8>, y: Seq<u8>)
    requires
        a + x == b + y,
        a.len() == b.len(),
    ensures
        a == b,
        x == y,
{
    let n = a.len() as int;
    assert(a =~= (a + x).subrange(0, n));
    assert(b =~= (b + y).subrange(0, n));
    assert(x =~= (a + x).subrange(n, (a + x).len() as int));
    assert(y =~= (b + y).subrange(n, (b + y).len() as int));
}

/// A variable-length integer is read back also when other bytes follow it.
pub proof fn lemma_var_int_prefix(n: nat, x: Seq<u8>, m: nat, y: Seq<u8>)
    requires
        n <= u64::MAX,
        m <= u64::MAX,
        var_int(n) + x == var_int(m) + y,
    ensures
        n == m,
        x == y,
{
    lemma_fits(n);
    lemma_fits(m);
    lemma_le_bytes_len(n, 2);
    lemma_le_bytes_len(m, 2);
    lemma_le_bytes_len(n, 4);
    lemma_le_bytes_len(m, 4);
    lemma_le_bytes_len(n, 8);
    lemma_le_bytes_len(m, 8);
    let first_n = (var_int(n) + x)[0];
    let first_m = (var_int(m) + y)[0];
    assert(first_n == var_int(n)[0]);
    assert(first_m == var_int(m)[0]);
    assert(first_n == first_m);
    if n <= 0xFC {
        assert(m <= 0xFC);
        lemma_split(var_int(n), x, var_int(m), y);
        assert(var_int(n)[0] == var_int(m)[0]);
    } else if n <= 0xFFFF {
        assert(0xFC < m <= 0xFFFF);
        lemma_split(var_int(n), x, var_int(m), y);
        lemma_split(seq![0xFDu8], le_bytes(n, 2), seq![0xFDu8], le_bytes(m, 2));
        lemma_le_injective(n, m, 2);
    } else if n <= 0xFFFF_FFFF {
        assert(0xFFFF < m <= 0xFFFF_FFFF);
        lemma_split(var_int(n), x, var_int(m), y);
        lemma_split(seq![0xFEu8], le_bytes(n, 4), seq![0xFEu8], le_bytes(m, 4));
        lemma_le_injective(n, m, 4);
    } else {
        assert(0xFFFF_FFFF < m);
        lemma_split(var_int(n), x, var_int(m), y);
        lemma_split(seq![0xFFu8], le_bytes(n, 8), seq![0xFFu8], le_bytes(m, 8));
        lemma_le_injective(n, m, 8);
    }
}

/// Appends the `n` low bytes of `v`, least significant first.
fn put_le(buf: &mut Vec<u8>, v: u64, n: usize)
    ensures
        final(buf)@ == old(buf)@ + le_bytes(v as nat, n as nat),
    decreases n,
{
    if n > 0 {
        buf.push((v % 256) as u8);
        put_le(buf, v / 256, n - 1);
        assert(buf@ =~= old(buf)@ + le_bytes(v as nat, n as nat));
    } else {
        assert(buf@ =~= old(buf)@ + le_bytes(v as nat, n as nat));
    }
}

/// Appends a `u32`, least significant byte first.
pub fn put_u32(buf: &mut Vec<u8>, v: u32)
    ensures
        final(buf)@ == old(buf)@ + u32_le(v),
{
    put_le(buf, v as u64, 4);
}

/// Appends a `u64`, least significant byte first.
pub fn put_u64(buf: &mut Vec<u8>, v: u64)
    ensures
        final(buf)@ == old(buf)@ + u64_le(v),
{
    put_le(buf, v, 8);
}

/// Appends an `i32` in two's complement, least significant byte first.
pub fn put_i32(buf: &mut Vec<u8>, v: i32)
    ensures
        final(buf)@ == old(buf)@ + i32_le(v),
{
    let bits: u64 = if v >= 0 {
        v as u64
    } else {
        (v as i64 + 0x1_0000_0000) as u64
    };
    put_le(buf, bits, 4);
}

/// Appends a length as a variable-length integer.
pub fn put_var_int(buf: &mut Vec<u8>, n: u64)
    ensures
        final(buf)@ == old(buf)@ + var_int(n as nat),
{
    if n <= 0xFC {
        buf.push(n as u8);
        assert(buf@ =~= old(buf)@ + var_int(n as nat));
    } else if n <= 0xFFFF {
        buf.push(0xFD);
        put_le(buf, n, 2);
        assert(buf@ =~= old(buf)@ + var_int(n as nat));
    } else if n <= 0xFFFF_FFFF {
        buf.push(0xFE);
        put_le(buf, n, 4);
        assert(buf@ =~= old(buf)@ + var_int(n as nat));
    } else {
        buf.push(0xFF);
        put_le(buf, n, 8);
        assert(buf@ =~= old(buf)@ + var_int(n as nat));
    }
}

/// Appends bytes as they are.
pub fn put_bytes(buf: &mut Vec<u8>, bytes: &Vec<u8>)
    ensures
        final(buf)@ == old(buf)@ + bytes@,
{
    let mut i: usize = 0;
    while i < bytes.len()
        invariant
            i <= bytes.len(),
            buf@ == old(buf)@ + bytes@.subrange(0, i as int),
        decreases bytes.len() - i,
    {
        buf.push(bytes[i]);
        i += 1;
        assert(buf@ =~= old(buf)@ + bytes@.subrange(0, i as int));
    }
    assert(bytes@.subrange(0, i as int) =~= bytes@);
}

/// Whether two byte strings are the same.
pub fn same_bytes(a: &Vec<u8>, b: &Vec<u8>) -> (same: bool)
    ensures
        same == (a@ == b@),
{
    if a.len() != b.len() {
        return false;
    }
    let mut i: usize = 0;
    while i < a.len()
        invariant
            i <= a.len(),
            a.len() == b.len(),
            forall|k: int| 0 <= k < i ==> a@[k] == b@[k],
        decreases a.len() - i,
    {
        if a[i] != b[i] {
            return false;
        }
        i += 1;
    }
    assert(a@ =~= b@);
    true
}

/// A copy of the bytes.
pub fn copy_bytes(bytes: &Vec<u8>) -> (copy: Vec<u8>)
    ensures
        copy@ == bytes@,
{
    let mut copy: Vec<u8> = Vec::new();
    put_bytes(&mut copy, bytes);
    assert(copy@ =~= bytes@);
    copy
}

} // verus!
