//! Numbers and the bytes that stand for them.
use vstd::prelude::*;

verus! {

/// The number that `bytes` stand for, the most significant byte first.
pub open spec fn be_value(bytes: Seq<u8>) -> nat
    decreases bytes.len(),
{
    if bytes.len() == 0 {
        0
    } else {
        256 * be_value(bytes.drop_last()) + bytes.last() as nat
    }
}

/// The number that `bytes` stand for, the least significant byte first.
pub open spec fn le_value(bytes: Seq<u8>) -> nat {
    be_value(bytes.reverse())
}

/// The number that `bytes` stand for on a machine of the given byte order.
pub open spec fn native_value(bytes: Seq<u8>, little_endian: bool) -> nat {
    if little_endian {
        le_value(bytes)
    } else {
        be_value(bytes)
    }
}

pub proof fn lemma_be_value_2(a: u8, b: u8)
    ensures
        be_value(seq![a, b]) == a * 0x100 + b,
{
    reveal_with_fuel(be_value, 3);
    assert(seq![a, b].drop_last() =~= seq![a]);
    assert(seq![a].drop_last() =~= Seq::<u8>::empty());
}

pub proof fn lemma_be_value_4(a: u8, b: u8, c: u8, d: u8)
    ensures
        be_value(seq![a, b, c, d]) == a * 0x100_0000 + b * 0x1_0000 + c * 0x100 + d,
{
    reveal_with_fuel(be_value, 5);
    assert(seq![a, b, c, d].drop_last() =~= seq![a, b, c]);
    assert(seq![a, b, c].drop_last() =~= seq![a, b]);
    assert(seq![a, b].drop_last() =~= seq![a]);
    assert(seq![a].drop_last() =~= Seq::<u8>::empty());
}

/// 256 to the power `n`.
pub open spec fn pow256(n: nat) -> nat
    decreases n,
{
    if n == 0 {
        1
    } else {
        256 * pow256((n - 1) as nat)
    }
}

pub proof fn lemma_be_value_bound(bytes: Seq<u8>)
    ensures
        be_value(bytes) < pow256(bytes.len()),
    decreases bytes.len(),
{
    if bytes.len() > 0 {
        lemma_be_value_bound(bytes.drop_last());
    }
}

pub proof fn lemma_pow256_grows(a: nat, b: nat)
    requires
        a <= b,
    ensures
        pow256(a) <= pow256(b),
    decreases b,
{
    if a < b {
        lemma_pow256_grows(a, (b - 1) as nat);
    }
}

/// The bytes of `value`, `n` of them, the most significant first.
pub open spec fn be_bytes(value: nat, n: nat) -> Seq<u8>
    decreases n,
{
    if n == 0 {
        Seq::empty()
    } else {
        be_bytes(value / 256, (n - 1) as nat).push((value % 256) as u8)
    }
}

/// The bytes of `value`, `n` of them, in the given order.
pub open spec fn native_bytes(value: nat, n: nat, little_endian: bool) -> Seq<u8> {
    if little_endian {
        be_bytes(value, n).reverse()
    } else {
        be_bytes(value, n)
    }
}

pub proof fn lemma_be_bytes(value: nat, n: nat)
    requires
        value < pow256(n),
    ensures
        be_bytes(value, n).len() == n,
        be_value(be_bytes(value, n)) == value,
    decreases n,
{
    if n > 0 {
        lemma_be_bytes(value / 256, (n - 1) as nat);
        assert(be_bytes(value, n).drop_last() =~= be_bytes(value / 256, (n - 1) as nat));
    }
}

pub proof fn lemma_native_bytes(value: nat, n: nat, little_endian: bool)
    requires
        value < pow256(n),
    ensures
        native_bytes(value, n, little_endian).len() == n,
        native_value(native_bytes(value, n, little_endian), little_endian) == value,
{
    lemma_be_bytes(value, n);
    assert(be_bytes(value, n).reverse().reverse() =~= be_bytes(value, n));
}

/// The four bytes of `value`, the least significant first.
pub(crate) fn le_bytes_u32(value: u32) -> (r: Vec<u8>)
    ensures
        r@ == native_bytes(value as nat, 4, true),
{
    let a = (value % 256) as u8;
    let b = (value / 256 % 256) as u8;
    let c = (value / 256 / 256 % 256) as u8;
    let d = (value / 256 / 256 / 256 % 256) as u8;
    proof {
        reveal_with_fuel(be_bytes, 5);
        assert(be_bytes(value as nat, 4) =~= seq![d, c, b, a]);
    }
    let mut r: Vec<u8> = Vec::new();
    r.push(a);
    r.push(b);
    r.push(c);
    r.push(d);
    assert(r@ =~= native_bytes(value as nat, 4, true));
    r
}

} // verus!
