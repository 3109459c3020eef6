//! The binary envelope of a publish request:
//! `[u32 LE length][metadata][u32 LE length][artifact]`, nothing after.
use vstd::prelude::*;

verus! {

/// Why a request body is not a well-formed envelope.
#[derive(Debug, Clone, Copy, PartialEq, Eq, Structural)]
pub enum FramingError {
    /// A length prefix or a declared segment runs past the end of the body.
    UnexpectedEndOfInput,
    /// Bytes remain after the artifact segment.
    TrailingData,
}

/// The little-endian unsigned value of the four bytes of `b` from `i` on.
pub open spec fn le_u32_at(b: Seq<u8>, i: int) -> int {
    b[i] + 256 * b[i + 1] + 65536 * b[i + 2] + 16777216 * b[i + 3]
}

/// The four little-endian bytes of `n` (taken modulo 2^32).
pub open spec fn le_u32_bytes(n: nat) -> Seq<u8> {
    seq![
        (n % 256) as u8,
        ((n / 256) % 256) as u8,
        ((n / 65536) % 256) as u8,
        ((n / 16777216) % 256) as u8,
    ]
}

/// The envelope that carries metadata `j` and artifact `a`.
pub open spec fn encode(j: Seq<u8>, a: Seq<u8>) -> Seq<u8> {
    le_u32_bytes(j.len()) + j + le_u32_bytes(a.len()) + a
}

/// What framing makes of the body `b`.
pub open spec fn frame(b: Seq<u8>) -> Result<(Seq<u8>, Seq<u8>), FramingError> {
    if b.len() < 4 {
        Err(FramingError::UnexpectedEndOfInput)
    } else {
        let l1 = le_u32_at(b, 0);
        if b.len() < 8 + l1 {
            Err(FramingError::UnexpectedEndOfInput)
        } else {
            let l2 = le_u32_at(b, 4 + l1);
            if b.len() < 8 + l1 + l2 {
                Err(FramingError::UnexpectedEndOfInput)
            } else if b.len() > 8 + l1 + l2 {
                Err(FramingError::TrailingData)
            } else {
                Ok((b.subrange(4, 4 + l1), b.subrange(8 + l1, 8 + l1 + l2)))
            }
        }
    }
}

/// Reading four little-endian bytes back gives the number they encode.
proof fn lemma_le_u32_read_back(n: nat)
    requires
        n < 4294967296,
    ensures
        le_u32_at(le_u32_bytes(n), 0) == n,
{
    let b = le_u32_bytes(n);
    let q1 = n / 256;
    let q2 = q1 / 256;
    let q3 = q2 / 256;
    assert(n == 256 * q1 + n % 256);
    assert(q1 == 256 * q2 + q1 % 256);
    assert(q2 == 256 * q3 + q2 % 256);
    assert(q3 < 256);
    assert(n / 65536 == q2) by {
        vstd::arithmetic::div_mod::lemma_div_denominator(n as int, 256, 256);
    }
    assert(n / 16777216 == q3) by {
        vstd::arithmetic::div_mod::lemma_div_denominator(q1 as int, 256, 256);
        vstd::arithmetic::div_mod::lemma_div_denominator(n as int, 256, 65536);
    }
    assert(b[0] == n % 256);
    assert(b[1] == q1 % 256);
    assert(b[2] == q2 % 256);
    assert(b[3] == q3);
}

/// Framing an encoded envelope gives back exactly the metadata and the
/// artifact that went in.
pub proof fn lemma_frame_round_trip(j: Seq<u8>, a: Seq<u8>)
    requires
        j.len() < 4294967296,
        a.len() < 4294967296,
    ensures
        frame(encode(j, a)) == Ok::<(Seq<u8>, Seq<u8>), FramingError>((j, a)),
{
    let e = encode(j, a);
    let l1 = j.len() as int;
    let l2 = a.len() as int;
    lemma_le_u32_read_back(j.len());
    lemma_le_u32_read_back(a.len());
    assert(e.subrange(0, 4) =~= le_u32_bytes(j.len()));
    assert(e.subrange(4 + l1, 8 + l1) =~= le_u32_bytes(a.len()));
    assert(le_u32_at(e, 0) == le_u32_at(e.subrange(0, 4), 0));
    assert(le_u32_at(e, 4 + l1) == le_u32_at(e.subrange(4 + l1, 8 + l1), 0));
    assert(e.subrange(4, 4 + l1) =~= j);
    assert(e.subrange(8 + l1, 8 + l1 + l2) =~= a);
}

/// Every proper prefix of an envelope is rejected as cut short.
pub proof fn lemma_frame_rejects_truncation(j: Seq<u8>, a: Seq<u8>, k: int)
    requires
        j.len() < 4294967296,
        a.len() < 4294967296,
        0 <= k < encode(j, a).len(),
    ensures
        frame(encode(j, a).take(k)) == Err::<(Seq<u8>, Seq<u8>), FramingError>(
            FramingError::UnexpectedEndOfInput,
        ),
{
    let e = encode(j, a);
    let t = e.take(k);
    let l1 = j.len() as int;
    lemma_frame_round_trip(j, a);
    if k >= 4 {
        assert(le_u32_at(t, 0) == le_u32_at(e, 0));
        if k >= 8 + l1 {
            assert(le_u32_at(t, 4 + l1) == le_u32_at(e, 4 + l1));
        }
    }
}

/// An envelope followed by any further bytes is rejected as too long.
pub proof fn lemma_frame_rejects_trailing(j: Seq<u8>, a: Seq<u8>, extra: Seq<u8>)
    requires
        j.len() < 4294967296,
        a.len() < 4294967296,
        extra.len() > 0,
    ensures
        frame(encode(j, a) + extra) == Err::<(Seq<u8>, Seq<u8>), FramingError>(
            FramingError::TrailingData,
        ),
{
    let e = encode(j, a);
    let t = e + extra;
    let l1 = j.len() as int;
    lemma_frame_round_trip(j, a);
    assert(le_u32_at(t, 0) == le_u32_at(e, 0));
    assert(le_u32_at(t, 4 + l1) == le_u32_at(e, 4 + l1));
}

/// Reads the little-endian `u32` at `i`, widened to `usize`.
fn read_le_u32(b: &[u8], i: usize) -> (r: usize)
    requires
        i + 4 <= b@.len(),
    ensures
        r == le_u32_at(b@, i as int),
{
    let v: u64 = b[i] as u64 + 256 * (b[i + 1] as u64) + 65536 * (b[i + 2] as u64) + 16777216 * (
    b[i + 3] as u64);
    assert(v < 4294967296);
    v as usize
}

/// Splits a request body into its metadata and artifact segments, which
/// borrow from `body`.
pub fn extract_body(body: &[u8]) -> (r: Result<(&[u8], &[u8]), FramingError>)
    ensures
        match (r, frame(body@)) {
            (Ok((j, a)), Ok((sj, sa))) => j@ == sj && a@ == sa,
            (Err(e), Err(se)) => e == se,
            _ => false,
        },
{
    let n = body.len();
    if n < 4 {
        return Err(FramingError::UnexpectedEndOfInput);
    }
    let json_length = read_le_u32(body, 0);
    if n - 4 < json_length || n - 4 - json_length < 4 {
        return Err(FramingError::UnexpectedEndOfInput);
    }
    let (first_prefix_and_json, after_json) = body.split_at(4 + json_length);
    let (_, json_bytes) = first_prefix_and_json.split_at(4);
    let crate_file_length = read_le_u32(after_json, 0);
    let rest = after_json.len() - 4;
    if rest < crate_file_length {
        return Err(FramingError::UnexpectedEndOfInput);
    }
    if rest > crate_file_length {
        return Err(FramingError::TrailingData);
    }
    let (_, crate_file) = after_json.split_at(4);
    proof {
        assert(after_json@ =~= body@.subrange(4 + json_length, n as int));
        assert(le_u32_at(after_json@, 0) == le_u32_at(body@, 4 + json_length));
        assert(json_bytes@ =~= body@.subrange(4, 4 + json_length));
        assert(crate_file@ =~= body@.subrange(8 + json_length, n as int));
    }
    Ok((json_bytes, crate_file))
}

} // verus!
