//! Binary sizes of values once encoded in the protocol-buffers wire format.

use vstd::prelude::*;

verus! {

/// Number of bytes of the base-128 varint encoding of `v`: seven payload bits
/// per byte, so one byte below 128 and one more for every further factor 128.
pub open spec fn varint_len(v: nat) -> nat
    decreases v,
{
    if v < 128 {
        1
    } else {
        1 + varint_len(v / 128)
    }
}

/// `128^k`, the number of values that fit in `k` varint bytes.
pub open spec fn pow128(k: nat) -> nat
    decreases k,
{
    if k == 0 {
        1
    } else {
        128 * pow128((k - 1) as nat)
    }
}

/// The unsigned 64-bit value that a signed 64-bit integer has on the wire
/// when it is written as a plain (not zigzag) varint: two's complement.
pub open spec fn twos_complement64(v: int) -> nat {
    if v >= 0 {
        v as nat
    } else {
        (v + 0x1_0000_0000_0000_0000) as nat
    }
}

/// Zigzag mapping of a signed integer to an unsigned one:
/// 0, -1, 1, -2, 2, ... become 0, 1, 2, 3, 4, ...
pub open spec fn zigzag(v: int) -> nat {
    if v >= 0 {
        (2 * v) as nat
    } else {
        (-2 * v - 1) as nat
    }
}

/// Size of a length-delimited chunk: the varint of the length, then the payload.
pub open spec fn len_delimited_size(len: nat) -> nat {
    varint_len(len) + len
}

/// `varint_len(v)` is the least number of bytes `k` with `v < 128^k`.
pub proof fn lemma_varint_len_is_minimal(v: nat)
    ensures
        1 <= varint_len(v),
        v < pow128(varint_len(v)),
        varint_len(v) > 1 ==> v >= pow128((varint_len(v) - 1) as nat),
    decreases v,
{
    reveal_with_fuel(pow128, 2);
    if v >= 128 {
        lemma_varint_len_is_minimal(v / 128);
        let k = varint_len(v / 128);
        assert(pow128(k + 1) == 128 * pow128(k));
        assert(v < 128 * pow128(k)) by {
            assert(v / 128 + 1 <= pow128(k));
            assert(v < 128 * (v / 128 + 1));
            assert(128 * (v / 128 + 1) <= 128 * pow128(k)) by (nonlinear_arith)
                requires
                    v / 128 + 1 <= pow128(k),
            ;
        }
        if k > 1 {
            assert(pow128(k) == 128 * pow128((k - 1) as nat));
            assert(v >= 128 * pow128((k - 1) as nat)) by {
                assert(128 * (v / 128) <= v);
                assert(128 * pow128((k - 1) as nat) <= 128 * (v / 128)) by (nonlinear_arith)
                    requires
                        pow128((k - 1) as nat) <= v / 128,
                ;
            }
        } else {
            assert(pow128(1) == 128);
        }
    }
}

/// Computes the binary size of the varint encoded u64.
pub fn sizeof_varint(v: u64) -> (r: usize)
    ensures
        r == varint_len(v as nat),
        1 <= r <= 10,
{
    proof {
        reveal_with_fuel(varint_len, 11);
    }
    if v <= 0x7F {
        1
    } else if v <= 0x3FFF {
        2
    } else if v <= 0x1F_FFFF {
        3
    } else if v <= 0xFFF_FFFF {
        4
    } else if v <= 0x7_FFFF_FFFF {
        5
    } else if v <= 0x3FF_FFFF_FFFF {
        6
    } else if v <= 0x1_FFFF_FFFF_FFFF {
        7
    } else if v <= 0xFF_FFFF_FFFF_FFFF {
        8
    } else if v <= 0x7FFF_FFFF_FFFF_FFFF {
        9
    } else {
        10
    }
}

/// Computes the binary size of a variable length chunk of data (wire type 2):
/// the varint encoded length plus the length itself.
pub fn sizeof_len(len: usize) -> (r: usize)
    requires
        len + 10 <= usize::MAX,
    ensures
        r == len_delimited_size(len as nat),
{
    sizeof_varint(len as u64) + len
}

/// Computes the binary size of the varint encoded i32 (sign-extended to 64 bits).
pub fn sizeof_int32(v: i32) -> (r: usize)
    ensures
        r == varint_len(twos_complement64(v as int)),
        v >= 0 ==> r <= 5,
        v < 0 ==> r == 10,
{
    proof {
        reveal_with_fuel(varint_len, 11);
    }
    sizeof_int64(v as i64)
}

/// Computes the binary size of the varint encoded i64.
pub fn sizeof_int64(v: i64) -> (r: usize)
    ensures
        r == varint_len(twos_complement64(v as int)),
        v < 0 ==> r == 10,
{
    proof {
        reveal_with_fuel(varint_len, 11);
    }
    if v >= 0 {
        sizeof_varint(v as u64)
    } else {
        let below: u64 = (-(v + 1)) as u64;
        sizeof_varint(u64::MAX - below)
    }
}

/// Computes the binary size of the varint encoded u32.
pub fn sizeof_uint32(v: u32) -> (r: usize)
    ensures
        r == varint_len(v as nat),
        r <= 5,
{
    proof {
        reveal_with_fuel(varint_len, 11);
    }
    sizeof_varint(v as u64)
}

/// Computes the binary size of the varint encoded u64.
pub fn sizeof_uint64(v: u64) -> (r: usize)
    ensures
        r == varint_len(v as nat),
{
    sizeof_varint(v)
}

/// Zigzag code of a signed 32-bit integer, as an unsigned 32-bit integer.
pub fn zigzag32(v: i32) -> (r: u32)
    ensures
        r == zigzag(v as int),
{
    if v >= 0 {
        2 * (v as u32)
    } else {
        let m: u32 = (-(v + 1)) as u32;
        2 * m + 1
    }
}

/// Zigzag code of a signed 64-bit integer, as an unsigned 64-bit integer.
pub fn zigzag64(v: i64) -> (r: u64)
    ensures
        r == zigzag(v as int),
{
    if v >= 0 {
        2 * (v as u64)
    } else {
        let m: u64 = (-(v + 1)) as u64;
        2 * m + 1
    }
}

/// Computes the binary size of the varint encoded sint32.
pub fn sizeof_sint32(v: i32) -> (r: usize)
    ensures
        r == varint_len(zigzag(v as int)),
        r <= 5,
{
    proof {
        reveal_with_fuel(varint_len, 11);
    }
    sizeof_varint(zigzag32(v) as u64)
}

/// Computes the binary size of the varint encoded sint64.
pub fn sizeof_sint64(v: i64) -> (r: usize)
    ensures
        r == varint_len(zigzag(v as int)),
{
    sizeof_varint(zigzag64(v))
}

/// Computes the binary size of the varint encoded bool (always one byte).
pub fn sizeof_bool(b: bool) -> (r: usize)
    ensures
        r == 1,
{
    1
}

/// Computes the binary size of the varint encoded enum.
pub fn sizeof_enum(v: i32) -> (r: usize)
    ensures
        r == varint_len(twos_complement64(v as int)),
{
    sizeof_int32(v)
}

} // verus!
