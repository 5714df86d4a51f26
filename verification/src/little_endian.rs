//! Little-endian byte strings of fixed width.
//!
//! Every integer that this crate writes (the length prefix of a frame, the
//! ordinals of a module's additional authenticated data, the nonce counter) is
//! written least significant byte first, so that the bytes do not depend on
//! the machine.

use vstd::prelude::*;

verus! {

/// 256 to the power `len`: the number of values that `len` bytes can hold.
pub open spec fn pow256(len: nat) -> nat
    decreases len,
{
    if len == 0 {
        1
    } else {
        256 * pow256((len - 1) as nat)
    }
}

/// The `len` low bytes of `value`, least significant first.
pub open spec fn le_bytes(value: nat, len: nat) -> Seq<u8>
    decreases len,
{
    if len == 0 {
        Seq::<u8>::empty()
    } else {
        seq![(value % 256) as u8] + le_bytes(value / 256, (len - 1) as nat)
    }
}

/// The number that a little-endian byte string stands for.
pub open spec fn le_value(bytes: Seq<u8>) -> nat
    decreases bytes.len(),
{
    if bytes.len() == 0 {
        0
    } else {
        bytes[0] as nat + 256 * le_value(bytes.drop_first())
    }
}

/// An encoding has exactly the width asked for.
pub proof fn lemma_le_bytes_len(value: nat, len: nat)
    ensures
        le_bytes(value, len).len() == len,
    decreases len,
{
    if len > 0 {
        lemma_le_bytes_len(value / 256, (len - 1) as nat);
    }
}

/// Decoding undoes encoding for every value that fits in the width.
pub proof fn lemma_le_value_of_le_bytes(value: nat, len: nat)
    requires
        value < pow256(len),
    ensures
        le_value(le_bytes(value, len)) == value,
    decreases len,
{
    if len > 0 {
        let rest = le_bytes(value / 256, (len - 1) as nat);
        let all = le_bytes(value, len);
        lemma_le_bytes_len(value / 256, (len - 1) as nat);
        assert(all.drop_first() =~= rest);
        lemma_le_value_of_le_bytes(value / 256, (len - 1) as nat);
    }
}

/// Two different values that fit in the width have different encodings.
pub proof fn lemma_le_bytes_injective(a: nat, b: nat, len: nat)
    requires
        a < pow256(len),
        b < pow256(len),
        le_bytes(a, len) == le_bytes(b, len),
    ensures
        a == b,
{
    lemma_le_value_of_le_bytes(a, len);
    lemma_le_value_of_le_bytes(b, len);
}

/// Encoding the first `done` bytes and then the rest is encoding them all.
pub proof fn lemma_le_bytes_split(value: nat, done: nat, len: nat)
    requires
        done <= len,
    ensures
        le_bytes(value, len) == le_bytes(value, done) + le_bytes(
            value / pow256(done),
            (len - done) as nat,
        ),
    decreases done,
{
    if done == 0 {
        assert(le_bytes(value, 0) + le_bytes(value, len) =~= le_bytes(value, len));
    } else {
        let d = (done - 1) as nat;
        lemma_le_bytes_split(value / 256, d, (len - 1) as nat);
        assert((value / 256) / pow256(d) == value / pow256(done)) by {
            lemma_div_div(value, d);
        }
        assert(le_bytes(value, len) =~= le_bytes(value, done) + le_bytes(
            value / pow256(done),
            (len - done) as nat,
        ));
    }
}

/// Dividing by 256 and then by a power of 256 is dividing by the next power.
proof fn lemma_div_div(value: nat, d: nat)
    ensures
        (value / 256) / pow256(d) == value / (256 * pow256(d)),
{
    lemma_pow256_positive(d);
    vstd::arithmetic::div_mod::lemma_div_denominator(value as int, 256, pow256(d) as int);
}

/// A power of 256 is never zero.
pub proof fn lemma_pow256_positive(len: nat)
    ensures
        pow256(len) > 0,
    decreases len,
{
    if len > 0 {
        lemma_pow256_positive((len - 1) as nat);
    }
}

/// Appends the `len` low bytes of `value` to `out`, least significant first.
pub fn push_le_bytes(out: &mut Vec<u8>, value: u128, len: usize)
    ensures
        final(out)@ == old(out)@ + le_bytes(value as nat, len as nat),
{
    let mut rest: u128 = value;
    let mut done: usize = 0;
    proof {
        assert(old(out)@ + le_bytes(value as nat, 0) =~= old(out)@);
        assert(pow256(0) == 1);
    }
    while done < len
        invariant
            done <= len,
            rest as nat == value as nat / pow256(done as nat),
            out@ == old(out)@ + le_bytes(value as nat, done as nat),
        decreases len - done,
    {
        let byte: u8 = (rest % 256) as u8;
        proof {
            let d = done as nat;
            lemma_pow256_positive(d);
            lemma_le_bytes_split(value as nat, d, d + 1);
            assert(le_bytes(rest as nat, 1) =~= seq![byte]) by {
                assert(le_bytes(rest as nat / 256, 0) =~= Seq::<u8>::empty());
            }
            assert(out@.push(byte) =~= old(out)@ + le_bytes(value as nat, d + 1));
            vstd::arithmetic::div_mod::lemma_div_denominator(value as int, pow256(d) as int, 256);
            assert(pow256(d) * 256 == pow256(d + 1)) by (nonlinear_arith)
                requires
                    pow256(d + 1) == 256 * pow256(d),
            ;
        }
        out.push(byte);
        rest = rest / 256;
        done = done + 1;
    }
}

/// An encoding of at least one byte is the lowest byte followed by the
/// encoding of the rest.
proof fn lemma_le_bytes_unfold(value: nat, len: nat)
    requires
        len > 0,
    ensures
        le_bytes(value, len) == seq![(value % 256) as u8] + le_bytes(
            value / 256,
            (len - 1) as nat,
        ),
{
}

/// The byte at place `i` of an encoding is the `i`-th base-256 digit of the
/// value.
pub proof fn lemma_le_bytes_index(value: nat, len: nat, i: nat)
    requires
        i < len,
    ensures
        le_bytes(value, len)[i as int] == ((value / pow256(i)) % 256) as u8,
{
    lemma_le_bytes_split(value, i, len);
    lemma_le_bytes_len(value, i);
    let digits = value / pow256(i);
    let width = (len - i) as nat;
    let rest = le_bytes(digits, width);
    lemma_le_bytes_len(digits, width);
    lemma_le_bytes_unfold(digits, width);
    assert(rest[0] == (digits % 256) as u8);
    assert(le_bytes(value, len)[i as int] == rest[0]);
}

/// A byte string of `len` bytes stands for a number below 256 to the `len`.
pub proof fn lemma_le_value_bound(bytes: Seq<u8>)
    ensures
        le_value(bytes) < pow256(bytes.len()),
    decreases bytes.len(),
{
    if bytes.len() > 0 {
        lemma_le_value_bound(bytes.drop_first());
    }
}

/// The 12 low bytes of `value`, least significant first.
pub fn le_array_12(value: u128) -> (out: [u8; 12])
    ensures
        out@ == le_bytes(value as nat, 12),
{
    let mut out: [u8; 12] = [0u8; 12];
    let mut rest: u128 = value;
    let mut done: usize = 0;
    proof {
        assert(pow256(0) == 1);
    }
    while done < 12
        invariant
            done <= 12,
            rest as nat == value as nat / pow256(done as nat),
            forall|j: int| 0 <= j < done ==> out@[j] == le_bytes(value as nat, 12)[j],
        decreases 12 - done,
    {
        proof {
            let d = done as nat;
            lemma_pow256_positive(d);
            lemma_le_bytes_index(value as nat, 12, d);
            vstd::arithmetic::div_mod::lemma_div_denominator(value as int, pow256(d) as int, 256);
            assert(pow256(d) * 256 == pow256(d + 1)) by (nonlinear_arith)
                requires
                    pow256(d + 1) == 256 * pow256(d),
            ;
        }
        out[done] = (rest % 256) as u8;
        rest = rest / 256;
        done = done + 1;
    }
    proof {
        lemma_le_bytes_len(value as nat, 12);
        assert(out@ =~= le_bytes(value as nat, 12));
    }
    out
}

/// The number that at most 16 little-endian bytes stand for.
pub fn le_value_u128(bytes: &[u8]) -> (value: u128)
    requires
        bytes@.len() <= 16,
    ensures
        value as nat == le_value(bytes@),
{
    let len = bytes.len();
    let mut value: u128 = 0;
    let mut at: usize = len;
    proof {
        assert(bytes@.subrange(len as int, len as int) =~= Seq::<u8>::empty());
    }
    while at > 0
        invariant
            at <= len,
            len == bytes@.len(),
            len <= 16,
            value as nat == le_value(bytes@.subrange(at as int, len as int)),
        decreases at,
    {
        proof {
            let tail = bytes@.subrange(at as int, len as int);
            let next = bytes@.subrange(at - 1, len as int);
            assert(next.drop_first() =~= tail);
            lemma_le_value_bound(tail);
            lemma_le_value_bound(next);
            lemma_pow256_monotonic(next.len(), 16);
            lemma_pow256_16();
        }
        at = at - 1;
        value = value * 256 + bytes[at] as u128;
    }
    proof {
        assert(bytes@.subrange(0, len as int) =~= bytes@);
    }
    value
}

/// A larger width holds at least as many values.
pub proof fn lemma_pow256_monotonic(a: nat, b: nat)
    requires
        a <= b,
    ensures
        pow256(a) <= pow256(b),
    decreases b,
{
    if a < b {
        lemma_pow256_monotonic(a, (b - 1) as nat);
    }
}

/// Sixteen bytes hold the 128-bit numbers.
pub proof fn lemma_pow256_16()
    ensures
        pow256(16) == 0x1_0000_0000_0000_0000_0000_0000_0000_0000,
{
    reveal_with_fuel(pow256, 17);
}

/// Twelve bytes hold the 96-bit numbers.
pub proof fn lemma_pow256_12()
    ensures
        pow256(12) == 0x1_0000_0000_0000_0000_0000_0000,
{
    reveal_with_fuel(pow256, 13);
}

/// Four bytes hold the 32-bit numbers.
pub proof fn lemma_pow256_4()
    ensures
        pow256(4) == 0x1_0000_0000,
{
    reveal_with_fuel(pow256, 5);
}

} // verus!
