//! Decompression shim: detects the zstd container magic number and
//! transparently decompresses before any other processing.  Stateless and
//! fail-open: on decode failure the original bytes come back unchanged.

use vstd::prelude::*;

verus! {

/// The zstd frame magic number: the first four bytes of every frame.
pub open spec fn spec_zstd_magic() -> Seq<u8> {
    seq![0x28u8, 0xB5u8, 0x2Fu8, 0xFDu8]
}

/// Whether a buffer starts with the zstd frame magic number.
pub open spec fn has_zstd_magic(b: Seq<u8>) -> bool {
    b.len() >= 4 && b.subrange(0, 4) == spec_zstd_magic()
}

/// What full-buffer zstd decompression yields on given bytes, when it
/// succeeds: a function of the bytes alone.
pub uninterp spec fn zstd_decode_of(frame: Seq<u8>) -> Option<Seq<u8>>;

/// What zstd compression at a given level yields for given bytes: a
/// function of the bytes and the level alone.
pub uninterp spec fn zstd_encode_of(bytes: Seq<u8>, level: int) -> Seq<u8>;

/// Relies on zstd::stream::decode_all: full-buffer decompression, a pure
/// function of the input bytes, failing exactly on input it cannot
/// decode.
#[verifier::external_body]
fn zstd_decode(bytes: &[u8]) -> (r: Option<Vec<u8>>)
    ensures
        match (r, zstd_decode_of(bytes@)) {
            (Some(v), Some(s)) => v@ == s,
            (None, None) => true,
            _ => false,
        },
{
    zstd::stream::decode_all(bytes).ok()
}

/// Relies on zstd::stream::encode_all: compression depends on the bytes
/// and the level alone, it is lossless, its output is a zstd frame,
/// every frame begins with the frame magic number, and decompressing
/// the frame yields the input again.
#[verifier::external_body]
fn zstd_encode(bytes: &[u8], level: i32) -> (r: Result<Vec<u8>, String>)
    ensures
        r matches Ok(c) ==> c@ == zstd_encode_of(bytes@, level as int) && zstd_decode_of(c@)
            == Some(bytes@) && has_zstd_magic(c@),
{
    match zstd::stream::encode_all(bytes, level) {
        Ok(v) => Ok(v),
        Err(e) => Err(e.to_string()),
    }
}

/// What the shim hands back for a buffer: the decompressed bytes when the
/// buffer carries the container magic number and decodes, the buffer
/// itself otherwise.
pub open spec fn spec_maybe_decompress(b: Seq<u8>) -> Seq<u8> {
    if has_zstd_magic(b) {
        match zstd_decode_of(b) {
            Some(d) => d,
            None => b,
        }
    } else {
        b
    }
}

/// Inspects the first four bytes; when they equal the container magic
/// number, attempts full-buffer decompression.  On success the
/// decompressed buffer comes back; on failure, and for buffers without
/// the magic number, the input comes back unchanged.
pub fn maybe_decompress(bytes: Vec<u8>) -> (r: Vec<u8>)
    ensures
        r@ == spec_maybe_decompress(bytes@),
{
    if bytes.len() >= 4 && bytes[0] == 0x28 && bytes[1] == 0xB5 && bytes[2] == 0x2F && bytes[3]
        == 0xFD {
        proof {
            assert(bytes@.subrange(0, 4) =~= spec_zstd_magic());
        }
        match zstd_decode(bytes.as_slice()) {
            Some(d) => d,
            None => bytes,
        }
    } else {
        proof {
            if has_zstd_magic(bytes@) {
                assert(bytes@.subrange(0, 4)[0] == bytes@[0]);
                assert(bytes@.subrange(0, 4)[1] == bytes@[1]);
                assert(bytes@.subrange(0, 4)[2] == bytes@[2]);
                assert(bytes@.subrange(0, 4)[3] == bytes@[3]);
            }
        }
        bytes
    }
}

/// The shim's companion compressor: compresses a buffer into a zstd
/// frame.  On success the result is exactly what zstd emits for these
/// bytes at this level, and feeding it back through
/// [`maybe_decompress`] restores the original buffer.
pub fn compress(bytes: &[u8], level: i32) -> (r: Result<Vec<u8>, String>)
    ensures
        r matches Ok(c) ==> c@ == zstd_encode_of(bytes@, level as int) && spec_maybe_decompress(c@)
            == bytes@,
{
    zstd_encode(bytes, level)
}

/// Round trip: a frame that decompresses to `b` comes back from the shim
/// as exactly `b`.
pub proof fn lemma_shim_round_trip(c: Seq<u8>, b: Seq<u8>)
    requires
        has_zstd_magic(c),
        zstd_decode_of(c) == Some(b),
    ensures
        spec_maybe_decompress(c) == b,
{
}

/// A buffer without the container magic number passes through the shim
/// unchanged, byte for byte.
pub proof fn lemma_shim_passthrough(b: Seq<u8>)
    requires
        !has_zstd_magic(b),
    ensures
        spec_maybe_decompress(b) == b,
{
}

} // verus!
