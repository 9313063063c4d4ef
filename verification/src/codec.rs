//! Little-endian, length-prefixed binary encoding primitives for the
//! discovery datagram payload.
//!
//! Integers are written least-significant byte first. Strings are written as
//! a `u64` byte count followed by the UTF-8 bytes. Every encoder has a spec
//! mirror (`spec_ser_*`), every decoder a spec mirror (`spec_de_*`), and each
//! pair comes with a lemma that decoding recovers exactly what was encoded,
//! wherever the encoding sits in a larger buffer.

use vstd::prelude::*;
use vstd::slice::slice_subrange;
use vstd::string::StringSliceAdditionalSpecFns;
use vstd::utf8::{decode_utf8, encode_utf8, valid_utf8};

verus! {

// ---------------------------------------------------------------------------
// Spec-level encoders
// ---------------------------------------------------------------------------

pub open spec fn spec_ser_u8(v: u8) -> Seq<u8> {
    seq![v]
}

pub open spec fn spec_ser_u16(v: u16) -> Seq<u8> {
    seq![(v % 256) as u8, ((v / 256) % 256) as u8]
}

pub open spec fn spec_ser_u32(v: u32) -> Seq<u8> {
    seq![
        (v % 256) as u8,
        ((v / 256) % 256) as u8,
        ((v / 65536) % 256) as u8,
        ((v / 16777216) % 256) as u8,
    ]
}

pub open spec fn spec_ser_u64(v: u64) -> Seq<u8> {
    seq![
        (v % 256) as u8,
        ((v / 256) % 256) as u8,
        ((v / 65536) % 256) as u8,
        ((v / 16777216) % 256) as u8,
        ((v / 4294967296) % 256) as u8,
        ((v / 1099511627776) % 256) as u8,
        ((v / 281474976710656) % 256) as u8,
        ((v / 72057594037927936) % 256) as u8,
    ]
}

pub open spec fn spec_ser_bool(b: bool) -> Seq<u8> {
    seq![if b { 1u8 } else { 0u8 }]
}

/// A string is encoded as the byte count of its UTF-8 form, then the bytes.
pub open spec fn spec_ser_string(s: Seq<char>) -> Seq<u8> {
    spec_ser_u64(encode_utf8(s).len() as u64) + encode_utf8(s)
}

/// An optional string is a presence byte, then the string if present.
pub open spec fn spec_ser_opt_string(s: Option<Seq<char>>) -> Seq<u8> {
    match s {
        None => seq![0u8],
        Some(inner) => seq![1u8] + spec_ser_string(inner),
    }
}

/// True when a string's UTF-8 form fits under the `u64` length prefix.
/// Every string held by executable code satisfies this.
pub open spec fn string_encodable(s: Seq<char>) -> bool {
    encode_utf8(s).len() < 0x1_0000_0000_0000_0000
}

// ---------------------------------------------------------------------------
// Spec-level decoders: a cursor into the buffer, `None` on malformed input
// ---------------------------------------------------------------------------

pub open spec fn spec_de_u8(data: Seq<u8>, pos: int) -> Option<(u8, int)> {
    if 0 <= pos && pos + 1 <= data.len() {
        Some((data[pos], pos + 1))
    } else {
        None
    }
}

pub open spec fn spec_de_u16(data: Seq<u8>, pos: int) -> Option<(u16, int)> {
    if 0 <= pos && pos + 2 <= data.len() {
        Some(((data[pos] + data[pos + 1] * 256) as u16, pos + 2))
    } else {
        None
    }
}

pub open spec fn spec_de_u32(data: Seq<u8>, pos: int) -> Option<(u32, int)> {
    if 0 <= pos && pos + 4 <= data.len() {
        Some(
            (
                (data[pos] + data[pos + 1] * 256 + data[pos + 2] * 65536 + data[pos + 3]
                    * 16777216) as u32,
                pos + 4,
            ),
        )
    } else {
        None
    }
}

pub open spec fn spec_de_u64(data: Seq<u8>, pos: int) -> Option<(u64, int)> {
    if 0 <= pos && pos + 8 <= data.len() {
        Some(
            (
                (data[pos] + data[pos + 1] * 256 + data[pos + 2] * 65536 + data[pos + 3]
                    * 16777216 + data[pos + 4] * 4294967296 + data[pos + 5] * 1099511627776 + data[
                    pos + 6
                ] * 281474976710656 + data[pos + 7] * 72057594037927936) as u64,
                pos + 8,
            ),
        )
    } else {
        None
    }
}

/// Only the bytes 0 and 1 decode as a boolean.
pub open spec fn spec_de_bool(data: Seq<u8>, pos: int) -> Option<(bool, int)> {
    match spec_de_u8(data, pos) {
        None => None,
        Some((b, p)) => if b == 0 {
            Some((false, p))
        } else if b == 1 {
            Some((true, p))
        } else {
            None
        },
    }
}

pub open spec fn spec_de_string(data: Seq<u8>, pos: int) -> Option<(Seq<char>, int)> {
    match spec_de_u64(data, pos) {
        None => None,
        Some((n, p)) => if p + n <= data.len() {
            let bytes = data.subrange(p, p + n);
            if valid_utf8(bytes) {
                Some((decode_utf8(bytes), p + n))
            } else {
                None
            }
        } else {
            None
        },
    }
}

pub open spec fn spec_de_opt_string(data: Seq<u8>, pos: int) -> Option<(Option<Seq<char>>, int)> {
    match spec_de_u8(data, pos) {
        None => None,
        Some((tag, p)) => if tag == 0 {
            Some((None, p))
        } else if tag == 1 {
            match spec_de_string(data, p) {
                None => None,
                Some((s, p2)) => Some((Some(s), p2)),
            }
        } else {
            None
        },
    }
}

// ---------------------------------------------------------------------------
// Executable encoders
// ---------------------------------------------------------------------------

pub fn ser_u8(out: &mut Vec<u8>, v: u8)
    ensures
        final(out)@ == old(out)@ + spec_ser_u8(v),
{
    out.push(v);
    assert(out@ =~= old(out)@ + spec_ser_u8(v));
}

pub fn ser_u16(out: &mut Vec<u8>, v: u16)
    ensures
        final(out)@ == old(out)@ + spec_ser_u16(v),
{
    out.push((v % 256) as u8);
    out.push(((v / 256) % 256) as u8);
    assert(out@ =~= old(out)@ + spec_ser_u16(v));
}

pub fn ser_u32(out: &mut Vec<u8>, v: u32)
    ensures
        final(out)@ == old(out)@ + spec_ser_u32(v),
{
    out.push((v % 256) as u8);
    out.push(((v / 256) % 256) as u8);
    out.push(((v / 65536) % 256) as u8);
    out.push(((v / 16777216) % 256) as u8);
    assert(out@ =~= old(out)@ + spec_ser_u32(v));
}

pub fn ser_u64(out: &mut Vec<u8>, v: u64)
    ensures
        final(out)@ == old(out)@ + spec_ser_u64(v),
{
    out.push((v % 256) as u8);
    out.push(((v / 256) % 256) as u8);
    out.push(((v / 65536) % 256) as u8);
    out.push(((v / 16777216) % 256) as u8);
    out.push(((v / 4294967296) % 256) as u8);
    out.push(((v / 1099511627776) % 256) as u8);
    out.push(((v / 281474976710656) % 256) as u8);
    out.push(((v / 72057594037927936) % 256) as u8);
    assert(out@ =~= old(out)@ + spec_ser_u64(v));
}

pub fn ser_bool(out: &mut Vec<u8>, b: bool)
    ensures
        final(out)@ == old(out)@ + spec_ser_bool(b),
{
    out.push(if b { 1 } else { 0 });
    assert(out@ =~= old(out)@ + spec_ser_bool(b));
}

pub fn ser_string(out: &mut Vec<u8>, s: &str)
    ensures
        final(out)@ == old(out)@ + spec_ser_string(s@),
{
    let bytes = s.as_bytes();
    ser_u64(out, bytes.len() as u64);
    out.extend_from_slice(bytes);
    assert(out@ =~= old(out)@ + spec_ser_string(s@));
}

pub fn ser_opt_string(out: &mut Vec<u8>, s: &Option<String>)
    ensures
        final(out)@ == old(out)@ + spec_ser_opt_string(match s {
            Some(inner) => Some(inner@),
            None => None,
        }),
{
    match s {
        None => {
            out.push(0);
            assert(out@ =~= old(out)@ + spec_ser_opt_string(None));
        },
        Some(inner) => {
            out.push(1);
            ser_string(out, inner.as_str());
            assert(out@ =~= old(out)@ + spec_ser_opt_string(Some(inner@)));
        },
    }
}

// ---------------------------------------------------------------------------
// Executable decoders
// ---------------------------------------------------------------------------

/// Relies on core::str::from_utf8: it returns `Ok` exactly when the bytes are
/// valid UTF-8, and the returned slice is those same bytes.
#[verifier::external_body]
fn bytes_as_str(v: &[u8]) -> (r: Option<&str>)
    ensures
        r is Some <==> valid_utf8(v@),
        r matches Some(s) ==> s.spec_bytes() == v@,
{
    core::str::from_utf8(v).ok()
}

pub fn de_u8(data: &[u8], pos: usize) -> (r: Option<(u8, usize)>)
    requires
        pos <= data@.len(),
    ensures
        r is Some <==> spec_de_u8(data@, pos as int) is Some,
        r matches Some((v, p)) ==> spec_de_u8(data@, pos as int) == Some((v, p as int)) && p
            <= data@.len(),
{
    if data.len() - pos >= 1 {
        let v = data[pos];
        Some((v, pos + 1))
    } else {
        None
    }
}

pub fn de_u16(data: &[u8], pos: usize) -> (r: Option<(u16, usize)>)
    requires
        pos <= data@.len(),
    ensures
        r is Some <==> spec_de_u16(data@, pos as int) is Some,
        r matches Some((v, p)) ==> spec_de_u16(data@, pos as int) == Some((v, p as int)) && p
            <= data@.len(),
{
    if data.len() - pos >= 2 {
        let v = data[pos] as u16 + data[pos + 1] as u16 * 256;
        Some((v, pos + 2))
    } else {
        None
    }
}

pub fn de_u32(data: &[u8], pos: usize) -> (r: Option<(u32, usize)>)
    requires
        pos <= data@.len(),
    ensures
        r is Some <==> spec_de_u32(data@, pos as int) is Some,
        r matches Some((v, p)) ==> spec_de_u32(data@, pos as int) == Some((v, p as int)) && p
            <= data@.len(),
{
    if data.len() - pos >= 4 {
        let v = data[pos] as u32 + data[pos + 1] as u32 * 256 + data[pos + 2] as u32 * 65536 + data[
            pos + 3
        ] as u32 * 16777216;
        Some((v, pos + 4))
    } else {
        None
    }
}

pub fn de_u64(data: &[u8], pos: usize) -> (r: Option<(u64, usize)>)
    requires
        pos <= data@.len(),
    ensures
        r is Some <==> spec_de_u64(data@, pos as int) is Some,
        r matches Some((v, p)) ==> spec_de_u64(data@, pos as int) == Some((v, p as int)) && p
            <= data@.len(),
{
    if data.len() - pos >= 8 {
        let v = data[pos] as u64 + data[pos + 1] as u64 * 256 + data[pos + 2] as u64 * 65536
            + data[pos + 3] as u64 * 16777216 + data[pos + 4] as u64 * 4294967296 + data[pos
            + 5] as u64 * 1099511627776 + data[pos + 6] as u64 * 281474976710656 + data[pos
            + 7] as u64 * 72057594037927936;
        Some((v, pos + 8))
    } else {
        None
    }
}

pub fn de_bool(data: &[u8], pos: usize) -> (r: Option<(bool, usize)>)
    requires
        pos <= data@.len(),
    ensures
        r is Some <==> spec_de_bool(data@, pos as int) is Some,
        r matches Some((v, p)) ==> spec_de_bool(data@, pos as int) == Some((v, p as int)) && p
            <= data@.len(),
{
    match de_u8(data, pos) {
        None => None,
        Some((b, p)) => if b == 0 {
            Some((false, p))
        } else if b == 1 {
            Some((true, p))
        } else {
            None
        },
    }
}

pub fn de_string(data: &[u8], pos: usize) -> (r: Option<(String, usize)>)
    requires
        pos <= data@.len(),
    ensures
        r is Some <==> spec_de_string(data@, pos as int) is Some,
        r matches Some((s, p)) ==> spec_de_string(data@, pos as int) == Some((s@, p as int)) && p
            <= data@.len(),
{
    match de_u64(data, pos) {
        None => None,
        Some((n, p)) => {
            if n <= (data.len() - p) as u64 {
                let nn = n as usize;
                let bytes = slice_subrange(data, p, p + nn);
                match bytes_as_str(bytes) {
                    None => {
                        assert(!valid_utf8(data@.subrange(p as int, p + n)));
                        None
                    },
                    Some(s) => {
                        proof {
                            vstd::utf8::encode_utf8_valid_utf8(s@);
                            vstd::utf8::encode_utf8_decode_utf8(s@);
                        }
                        Some((s.to_owned(), p + nn))
                    },
                }
            } else {
                None
            }
        },
    }
}

pub fn de_opt_string(data: &[u8], pos: usize) -> (r: Option<(Option<String>, usize)>)
    requires
        pos <= data@.len(),
    ensures
        r is Some <==> spec_de_opt_string(data@, pos as int) is Some,
        r matches Some((s, p)) ==> spec_de_opt_string(data@, pos as int) == Some(
            (
                match s {
                    Some(inner) => Some(inner@),
                    None => None,
                },
                p as int,
            ),
        ) && p <= data@.len(),
{
    match de_u8(data, pos) {
        None => None,
        Some((tag, p)) => if tag == 0 {
            Some((None, p))
        } else if tag == 1 {
            match de_string(data, p) {
                None => None,
                Some((s, p2)) => Some((Some(s), p2)),
            }
        } else {
            None
        },
    }
}

// ---------------------------------------------------------------------------
// Round-trip lemmas: decoding an encoding embedded in a larger buffer yields
// back the encoded value and stops right after it.
// ---------------------------------------------------------------------------

pub proof fn lemma_de_u8_at(data: Seq<u8>, pos: int, v: u8)
    requires
        0 <= pos,
        pos + 1 <= data.len(),
        data.subrange(pos, pos + 1) == spec_ser_u8(v),
    ensures
        spec_de_u8(data, pos) == Some((v, pos + 1)),
{
    assert(data[pos] == data.subrange(pos, pos + 1)[0]);
}

pub proof fn lemma_de_u16_at(data: Seq<u8>, pos: int, v: u16)
    requires
        0 <= pos,
        pos + 2 <= data.len(),
        data.subrange(pos, pos + 2) == spec_ser_u16(v),
    ensures
        spec_de_u16(data, pos) == Some((v, pos + 2)),
{
    let sub = data.subrange(pos, pos + 2);
    assert(data[pos] == sub[0] && data[pos + 1] == sub[1]);
    assert(v % 256 + ((v / 256) % 256) * 256 == v) by {
        assert(v / 256 < 256);
        assert(v % 256 + (v / 256) * 256 == v);
    }
}

pub proof fn lemma_de_u32_at(data: Seq<u8>, pos: int, v: u32)
    requires
        0 <= pos,
        pos + 4 <= data.len(),
        data.subrange(pos, pos + 4) == spec_ser_u32(v),
    ensures
        spec_de_u32(data, pos) == Some((v, pos + 4)),
{
    let sub = data.subrange(pos, pos + 4);
    assert(data[pos] == sub[0] && data[pos + 1] == sub[1] && data[pos + 2] == sub[2] && data[pos
        + 3] == sub[3]);
    assert(v % 256 + ((v / 256) % 256) * 256 + ((v / 65536) % 256) * 65536 + ((v / 16777216) % 256)
        * 16777216 == v) by {
        assert(v / 16777216 < 256);
        assert(v % 256 + (v / 256) * 256 == v);
        assert(v / 256 % 256 + (v / 65536) * 256 == v / 256) by {
            assert(v / 256 / 256 == v / 65536) by (nonlinear_arith);
        }
        assert(v / 65536 % 256 + (v / 16777216) * 256 == v / 65536) by {
            assert(v / 65536 / 256 == v / 16777216) by (nonlinear_arith);
        }
    }
}

pub proof fn lemma_de_u64_at(data: Seq<u8>, pos: int, v: u64)
    requires
        0 <= pos,
        pos + 8 <= data.len(),
        data.subrange(pos, pos + 8) == spec_ser_u64(v),
    ensures
        spec_de_u64(data, pos) == Some((v, pos + 8)),
{
    let sub = data.subrange(pos, pos + 8);
    assert(data[pos] == sub[0] && data[pos + 1] == sub[1] && data[pos + 2] == sub[2] && data[pos
        + 3] == sub[3] && data[pos + 4] == sub[4] && data[pos + 5] == sub[5] && data[pos + 6]
        == sub[6] && data[pos + 7] == sub[7]);
    assert(v % 256 + ((v / 256) % 256) * 256 + ((v / 65536) % 256) * 65536 + ((v / 16777216) % 256)
        * 16777216 + ((v / 4294967296) % 256) * 4294967296 + ((v / 1099511627776) % 256)
        * 1099511627776 + ((v / 281474976710656) % 256) * 281474976710656 + ((v
        / 72057594037927936) % 256) * 72057594037927936 == v) by {
        assert(v / 72057594037927936 < 256);
        assert(v % 256 + (v / 256) * 256 == v);
        assert(v / 256 % 256 + (v / 65536) * 256 == v / 256) by {
            assert(v / 256 / 256 == v / 65536) by (nonlinear_arith);
        }
        assert(v / 65536 % 256 + (v / 16777216) * 256 == v / 65536) by {
            assert(v / 65536 / 256 == v / 16777216) by (nonlinear_arith);
        }
        assert(v / 16777216 % 256 + (v / 4294967296) * 256 == v / 16777216) by {
            assert(v / 16777216 / 256 == v / 4294967296) by (nonlinear_arith);
        }
        assert(v / 4294967296 % 256 + (v / 1099511627776) * 256 == v / 4294967296) by {
            assert(v / 4294967296 / 256 == v / 1099511627776) by (nonlinear_arith);
        }
        assert(v / 1099511627776 % 256 + (v / 281474976710656) * 256 == v / 1099511627776) by {
            assert(v / 1099511627776 / 256 == v / 281474976710656) by (nonlinear_arith);
        }
        assert(v / 281474976710656 % 256 + (v / 72057594037927936) * 256 == v / 281474976710656)
            by {
            assert(v / 281474976710656 / 256 == v / 72057594037927936) by (nonlinear_arith);
        }
    }
}

pub proof fn lemma_de_bool_at(data: Seq<u8>, pos: int, b: bool)
    requires
        0 <= pos,
        pos + 1 <= data.len(),
        data.subrange(pos, pos + 1) == spec_ser_bool(b),
    ensures
        spec_de_bool(data, pos) == Some((b, pos + 1)),
{
    assert(data[pos] == data.subrange(pos, pos + 1)[0]);
}

pub proof fn lemma_de_string_at(data: Seq<u8>, pos: int, s: Seq<char>)
    requires
        0 <= pos,
        string_encodable(s),
        pos + spec_ser_string(s).len() <= data.len(),
        data.subrange(pos, pos + spec_ser_string(s).len()) == spec_ser_string(s),
    ensures
        spec_de_string(data, pos) == Some((s, pos + spec_ser_string(s).len())),
{
    let bytes = encode_utf8(s);
    let n = bytes.len() as int;
    let whole = spec_ser_string(s);
    assert(whole.len() == 8 + n);
    assert(data.subrange(pos, pos + 8) =~= whole.subrange(0, 8));
    assert(whole.subrange(0, 8) =~= spec_ser_u64(n as u64));
    lemma_de_u64_at(data, pos, n as u64);
    assert(spec_de_u64(data, pos) == Some((n as u64, pos + 8)));
    assert(data.subrange(pos + 8, pos + 8 + n) =~= bytes) by {
        assert(forall|i: int|
            0 <= i < n ==> #[trigger] data.subrange(pos + 8, pos + 8 + n)[i] == whole[8 + i]);
        assert(forall|i: int| 0 <= i < n ==> #[trigger] whole[8 + i] == bytes[i]);
    }
    vstd::utf8::encode_utf8_valid_utf8(s);
    vstd::utf8::encode_utf8_decode_utf8(s);
}

pub proof fn lemma_de_opt_string_at(data: Seq<u8>, pos: int, s: Option<Seq<char>>)
    requires
        0 <= pos,
        match s {
            Some(inner) => string_encodable(inner),
            None => true,
        },
        pos + spec_ser_opt_string(s).len() <= data.len(),
        data.subrange(pos, pos + spec_ser_opt_string(s).len()) == spec_ser_opt_string(s),
    ensures
        spec_de_opt_string(data, pos) == Some((s, pos + spec_ser_opt_string(s).len())),
{
    let whole = spec_ser_opt_string(s);
    assert(data[pos] == data.subrange(pos, pos + whole.len())[0]);
    match s {
        None => {
            assert(data[pos] == 0);
        },
        Some(inner) => {
            assert(data[pos] == 1);
            let body = spec_ser_string(inner);
            assert(data.subrange(pos + 1, pos + 1 + body.len()) =~= body) by {
                assert(forall|i: int|
                    0 <= i < body.len() ==> #[trigger] data.subrange(pos + 1, pos + 1 + body.len())[i]
                        == whole[1 + i]);
                assert(forall|i: int| 0 <= i < body.len() ==> #[trigger] whole[1 + i] == body[i]);
            }
            lemma_de_string_at(data, pos + 1, inner);
        },
    }
}

/// Splitting a region of a buffer into a first piece and the rest.
pub proof fn lemma_take_piece(data: Seq<u8>, pos: int, end: int, piece: Seq<u8>, rest: Seq<u8>)
    requires
        0 <= pos <= end <= data.len(),
        data.subrange(pos, end) == piece + rest,
    ensures
        pos + piece.len() <= end,
        data.subrange(pos, pos + piece.len()) == piece,
        data.subrange(pos + piece.len(), end) == rest,
{
    let region = data.subrange(pos, end);
    assert(region.len() == piece.len() + rest.len());
    assert(data.subrange(pos, pos + piece.len()) =~= piece) by {
        assert forall|i: int| 0 <= i < piece.len() implies #[trigger] data.subrange(
            pos,
            pos + piece.len(),
        )[i] == piece[i] by {
            assert(region[i] == piece[i]);
            assert(region[i] == data[pos + i]);
        }
    }
    assert(data.subrange(pos + piece.len(), end) =~= rest) by {
        assert forall|i: int| 0 <= i < rest.len() implies #[trigger] data.subrange(
            pos + piece.len(),
            end,
        )[i] == rest[i] by {
            assert(region[piece.len() + i] == rest[i]);
            assert(region[piece.len() + i] == data[pos + piece.len() + i]);
        }
    }
}

} // verus!
