//! Fixed-width values in little-endian bytes.

use vstd::prelude::*;
use crate::error::ErrorCode;
use crate::error::ErrorKind;

verus! {

/// The number that the `width` bytes from `at` on stand for, lowest byte
/// first.
pub open spec fn le_value(bytes: Seq<u8>, at: int, width: nat) -> int
    decreases width,
{
    if width == 0 {
        0
    } else {
        bytes[at] + 256 * le_value(bytes, at + 1, (width - 1) as nat)
    }
}

/// The signed number of 32 bits that has the same bits as `v`.
pub open spec fn signed32(v: int) -> int {
    if v >= 0x8000_0000 {
        v - 0x1_0000_0000
    } else {
        v
    }
}

/// The signed number of 64 bits that has the same bits as `v`.
pub open spec fn signed64(v: int) -> int {
    if v >= 0x8000_0000_0000_0000 {
        v - 0x1_0000_0000_0000_0000
    } else {
        v
    }
}

/// A number of `width` bytes is below 256 to the power of `width`.
pub proof fn lemma_le_value_bound(bytes: Seq<u8>, at: int, width: nat)
    requires
        0 <= at,
        at + width <= bytes.len(),
        width <= 8,
    ensures
        0 <= le_value(bytes, at, width),
        width == 4 ==> le_value(bytes, at, width) < 0x1_0000_0000,
        width == 8 ==> le_value(bytes, at, width) < 0x1_0000_0000_0000_0000,
{
    reveal_with_fuel(le_value, 9);
}

/// The failure that reports that bytes are missing.
pub fn unexpected_end() -> (e: ErrorCode)
    ensures
        e.kind == ErrorKind::BadBytes,
        e.message@ == "Unexpected end of bytes"@,
{
    ErrorCode::new(ErrorKind::BadBytes, "Unexpected end of bytes")
}

/// Reads the unsigned number of `width` bytes at `at`.
pub fn read_unsigned(reader: &[u8], at: usize, width: usize) -> (v: u64)
    requires
        at + width <= reader@.len(),
        width == 4 || width == 8,
    ensures
        v == le_value(reader@, at as int, width as nat),
{
    proof {
        reveal_with_fuel(le_value, 9);
    }
    let total: usize = reader.len();
    let mut v: u64 = 0;
    let mut i: usize = width;
    while i > 0
        invariant
            total == reader@.len(),
            i <= width <= 8,
            at + width <= reader@.len(),
            v == le_value(reader@, at + i, (width - i) as nat),
        decreases i,
    {
        proof {
            lemma_le_value_bound(reader@, at + i, (width - i) as nat);
            lemma_le_value_step(reader@, at + i - 1, (width - i + 1) as nat);
            lemma_le_value_small(reader@, at + i, (width - i) as nat);
        }
        i -= 1;
        v = v * 256 + reader[at + i] as u64;
    }
    v
}

/// A number of one more byte is the lowest byte and 256 times the rest.
pub proof fn lemma_le_value_step(bytes: Seq<u8>, at: int, width: nat)
    requires
        width > 0,
    ensures
        le_value(bytes, at, width) == bytes[at] + 256 * le_value(bytes, at + 1, (width - 1) as nat),
{
}

/// A number of fewer than eight bytes leaves room for one more byte.
pub proof fn lemma_le_value_small(bytes: Seq<u8>, at: int, width: nat)
    requires
        0 <= at,
        at + width <= bytes.len(),
        width < 8,
    ensures
        le_value(bytes, at, width) < 0x100_0000_0000_0000,
{
    reveal_with_fuel(le_value, 9);
}

/// Reads a signed number of 32 bits at `at`. Fewer than four bytes there
/// are bad bytes.
pub fn read_i32(reader: &[u8], at: usize) -> (r: Result<i32, ErrorCode>)
    ensures
        r is Ok <==> at + 4 <= reader@.len(),
        r is Ok ==> r->Ok_0 == signed32(le_value(reader@, at as int, 4)),
        r is Err ==> r->Err_0.kind == ErrorKind::BadBytes,
{
    if reader.len() < 4 || at > reader.len() - 4 {
        return Err(unexpected_end());
    }
    let v = read_unsigned(reader, at, 4);
    proof {
        lemma_le_value_bound(reader@, at as int, 4);
    }
    if v >= 0x8000_0000 {
        let low: i64 = (v - 0x8000_0000) as i64;
        Ok((low - 0x8000_0000) as i32)
    } else {
        Ok(v as i32)
    }
}

/// Reads a signed number of 64 bits at `at`. Fewer than eight bytes there
/// are bad bytes.
pub fn read_i64(reader: &[u8], at: usize) -> (r: Result<i64, ErrorCode>)
    ensures
        r is Ok <==> at + 8 <= reader@.len(),
        r is Ok ==> r->Ok_0 == signed64(le_value(reader@, at as int, 8)),
        r is Err ==> r->Err_0.kind == ErrorKind::BadBytes,
{
    if reader.len() < 8 || at > reader.len() - 8 {
        return Err(unexpected_end());
    }
    let v = read_unsigned(reader, at, 8);
    if v >= 0x8000_0000_0000_0000 {
        let low: i64 = (v - 0x8000_0000_0000_0000) as i64;
        Ok(low + i64::MIN)
    } else {
        Ok(v as i64)
    }
}

/// Reads a truth value at `at`: a byte other than zero is true. No byte
/// there is bad bytes.
pub fn read_bool(reader: &[u8], at: usize) -> (r: Result<bool, ErrorCode>)
    ensures
        r is Ok <==> at < reader@.len(),
        r is Ok ==> r->Ok_0 == (reader@[at as int] != 0),
        r is Err ==> r->Err_0.kind == ErrorKind::BadBytes,
{
    if at >= reader.len() {
        return Err(unexpected_end());
    }
    Ok(reader[at] != 0)
}

/// The `width` bytes that stand for `v`, lowest byte first.
pub open spec fn le_bytes(v: nat, width: nat) -> Seq<u8>
    decreases width,
{
    if width == 0 {
        Seq::empty()
    } else {
        seq![(v % 256) as u8] + le_bytes(v / 256, (width - 1) as nat)
    }
}

/// The bytes of a number have the width asked for.
pub proof fn lemma_le_bytes_len(v: nat, width: nat)
    ensures
        le_bytes(v, width).len() == width,
    decreases width,
{
    if width > 0 {
        lemma_le_bytes_len(v / 256, (width - 1) as nat);
    }
}

/// Reading what was written gives the number back: where the eight bytes
/// from `at` on are the bytes of `v`, they stand for `v`.
pub proof fn lemma_le_round_trip(bytes: Seq<u8>, at: int, v: u64)
    requires
        0 <= at,
        at + 8 <= bytes.len(),
        bytes.subrange(at, at + 8) == le_bytes(v as nat, 8),
    ensures
        le_value(bytes, at, 8) == v,
{
    let part = bytes.subrange(at, at + 8);
    reveal_with_fuel(le_bytes, 9);
    reveal_with_fuel(le_value, 9);
    assert(forall|i: int| 0 <= i < 8 ==> bytes[at + i] == #[trigger] part[i]);
    let v0 = v as nat;
    let v1 = v0 / 256;
    let v2 = v1 / 256;
    let v3 = v2 / 256;
    let v4 = v3 / 256;
    let v5 = v4 / 256;
    let v6 = v5 / 256;
    let v7 = v6 / 256;
    assert(part[0] == (v0 % 256) as u8);
    assert(part[1] == (v1 % 256) as u8);
    assert(part[2] == (v2 % 256) as u8);
    assert(part[3] == (v3 % 256) as u8);
    assert(part[4] == (v4 % 256) as u8);
    assert(part[5] == (v5 % 256) as u8);
    assert(part[6] == (v6 % 256) as u8);
    assert(part[7] == (v7 % 256) as u8);
    assert(v7 < 256);
}

/// Appends the eight bytes of `v`, lowest byte first.
pub fn write_unsigned(out: &mut Vec<u8>, v: u64)
    ensures
        final(out)@ == old(out)@ + le_bytes(v as nat, 8),
{
    let mut rest: u64 = v;
    let mut i: usize = 0;
    let ghost mut written: Seq<u8> = Seq::empty();
    while i < 8
        invariant
            i <= 8,
            out@ == old(out)@ + written,
            written.len() == i,
            written + le_bytes(rest as nat, (8 - i) as nat) == le_bytes(v as nat, 8),
        decreases 8 - i,
    {
        let byte: u8 = (rest % 256) as u8;
        out.push(byte);
        proof {
            let before = written;
            written = written.push(byte);
            assert(le_bytes(rest as nat, (8 - i) as nat) =~= seq![byte] + le_bytes(
                (rest / 256) as nat,
                (8 - i - 1) as nat,
            ));
            assert(written + le_bytes((rest / 256) as nat, (8 - i - 1) as nat) =~= before
                + le_bytes(rest as nat, (8 - i) as nat));
            assert(out@ =~= old(out)@ + written);
        }
        rest = rest / 256;
        i += 1;
    }
    proof {
        assert(le_bytes(rest as nat, 0) =~= Seq::<u8>::empty());
        assert(written + le_bytes(rest as nat, 0) =~= written);
    }
}

} // verus!
