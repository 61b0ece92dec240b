//! Compression of NARs.

use std::io::Write;

use vstd::prelude::*;
use vstd::string::*;

use crate::api::types::CompressionMethod;

verus! {

/// The error of an input or output operation.
#[verifier::external_type_specification]
#[verifier::external_body]
pub struct ExIoError(std::io::Error);

/// Whether `out` is what `zstd::encode_all` gives for `data` at a level. Other
/// releases of the compressor may give other bytes.
pub uninterp spec fn zstd_encodes(data: Seq<u8>, level: i32, out: Seq<u8>) -> bool;

/// What `zstd::decode_all` gives, where it gives no error.
pub uninterp spec fn zstd_contents(compressed: Seq<u8>) -> Option<Seq<u8>>;

/// Whether `out` is what `xz2::write::XzEncoder` writes for `data` at a level.
/// Other releases of liblzma may write other bytes.
pub uninterp spec fn xz_encodes(data: Seq<u8>, level: u32, out: Seq<u8>) -> bool;

/// What `xz2::write::XzDecoder` writes, where it gives no error.
pub uninterp spec fn xz_contents(compressed: Seq<u8>) -> Option<Seq<u8>>;

/// The levels that `xz2::write::XzEncoder` takes: 0 to 9, each also with the flag
/// for the extreme variant.
pub open spec fn is_xz_level(level: u32) -> bool {
    level <= 9 || 0x8000_0000 <= level <= 0x8000_0009
}

/// `zstd::encode_all`, from memory to memory. It takes every level, as it takes one that
/// is out of range for the nearest that is in range, and has no cause to fail as long as
/// there is memory. It compresses without loss: `zstd::decode_all` gives the data back.
#[verifier::external_body]
fn zstd_encode(data: &[u8], level: i32) -> (r: Result<Vec<u8>, std::io::Error>)
    ensures
        r is Ok,
        r matches Ok(out) ==> zstd_encodes(data@, level, out@) && zstd_contents(out@) == Some(
            data@,
        ),
{
    zstd::encode_all(std::io::Cursor::new(data), level)
}

/// `xz2::write::XzEncoder`, into memory: `new`, `write_all` and `finish`. The outer error
/// would be that of `write_all`, the inner one that of `finish`; with a level that it
/// takes, neither has a cause to fail as long as there is memory. It compresses without
/// loss: `xz2::write::XzDecoder` gives the data back.
#[verifier::external_body]
fn xz_encode(data: &[u8], level: u32) -> (r: Result<
    Result<Vec<u8>, std::io::Error>,
    std::io::Error,
>)
    requires
        is_xz_level(level),
    ensures
        r is Ok,
        r->Ok_0 is Ok,
        r matches Ok(Ok(out)) ==> xz_encodes(data@, level, out@) && xz_contents(out@) == Some(
            data@,
        ),
{
    let mut encoder = xz2::write::XzEncoder::new(Vec::new(), level);
    encoder.write_all(data)?;
    Ok(encoder.finish())
}

/// Why a NAR was not compressed.
#[derive(Debug)]
pub enum CompressError {
    Zstd(std::io::Error),
    Xz(std::io::Error),
    XzFinish(std::io::Error),
}

impl CompressError {
    /// The text of the message for the user.
    pub open spec fn message_text(self) -> Seq<char> {
        match self {
            CompressError::Zstd(_) => "zstd compression failed"@,
            CompressError::Xz(_) => "xz compression failed"@,
            CompressError::XzFinish(_) => "xz finish failed"@,
        }
    }

    /// The message for the user.
    pub fn message(&self) -> (r: String)
        ensures
            r@ == self.message_text(),
    {
        match self {
            CompressError::Zstd(_) => "zstd compression failed".to_string(),
            CompressError::Xz(_) => "xz compression failed".to_string(),
            CompressError::XzFinish(_) => "xz finish failed".to_string(),
        }
    }
}

/// The level for xz. Levels go up to 16, and those above the highest of xz are its
/// highest.
pub open spec fn xz_level(level: u32) -> u32 {
    if 9 < level <= 16 {
        9
    } else {
        level
    }
}

/// Whether the method takes the level.
pub open spec fn takes_level(method: CompressionMethod, level: u32) -> bool {
    method is Xz ==> is_xz_level(xz_level(level))
}

/// Each method takes the levels 0 to 16.
pub proof fn levels_are_taken(method: CompressionMethod, level: u32)
    requires
        level <= 16,
    ensures
        takes_level(method, level),
{
}

/// Whether `out` is `data` as the method compresses it at a level.
pub open spec fn compresses(
    data: Seq<u8>,
    method: CompressionMethod,
    level: u32,
    out: Seq<u8>,
) -> bool {
    match method {
        CompressionMethod::Zstd => zstd_encodes(data, level as i32, out),
        CompressionMethod::Xz => xz_encodes(data, xz_level(level), out),
    }
}

/// What is compressed in `compressed`.
pub open spec fn contents(method: CompressionMethod, compressed: Seq<u8>) -> Option<Seq<u8>> {
    match method {
        CompressionMethod::Zstd => zstd_contents(compressed),
        CompressionMethod::Xz => xz_contents(compressed),
    }
}

/// Whether a method takes a level.
pub fn level_fits(method: CompressionMethod, level: u32) -> (r: bool)
    ensures
        r == takes_level(method, level),
{
    match method {
        CompressionMethod::Zstd => true,
        CompressionMethod::Xz => level <= 16 || (0x8000_0000 <= level && level <= 0x8000_0009),
    }
}

/// What became of a compression with zstd.
pub fn zstd_result(outcome: Result<Vec<u8>, std::io::Error>) -> (r: Result<
    Vec<u8>,
    CompressError,
>)
    ensures
        r == match outcome {
            Ok(out) => Ok(out),
            Err(e) => Err(CompressError::Zstd(e)),
        },
{
    match outcome {
        Ok(out) => Ok(out),
        Err(e) => Err(CompressError::Zstd(e)),
    }
}

/// What became of a compression with xz.
pub fn xz_result(outcome: Result<Result<Vec<u8>, std::io::Error>, std::io::Error>) -> (r: Result<
    Vec<u8>,
    CompressError,
>)
    ensures
        r == match outcome {
            Ok(Ok(out)) => Ok(out),
            Ok(Err(e)) => Err(CompressError::XzFinish(e)),
            Err(e) => Err(CompressError::Xz(e)),
        },
{
    match outcome {
        Ok(Ok(out)) => Ok(out),
        Ok(Err(e)) => Err(CompressError::XzFinish(e)),
        Err(e) => Err(CompressError::Xz(e)),
    }
}

/// Compress NAR data. The result decompresses to the data.
pub fn compress_nar(data: &[u8], method: &CompressionMethod, level: u32) -> (r: Result<
    Vec<u8>,
    CompressError,
>)
    requires
        takes_level(*method, level),
    ensures
        r is Ok,
        compresses(data@, *method, level, r->Ok_0@),
        contents(*method, r->Ok_0@) == Some(data@),
{
    match method {
        CompressionMethod::Zstd => zstd_result(zstd_encode(data, level as i32)),
        CompressionMethod::Xz => {
            let level: u32 = if 9 < level && level <= 16 {
                9
            } else {
                level
            };
            xz_result(xz_encode(data, level))
        },
    }
}

/// zstd is given each level as it is, and xz each level up to its highest, which is 9, and
/// the highest for the levels up to 16. The level of the extreme variant stays with xz.
pub proof fn levels_of_the_methods(data: Seq<u8>, level: u32, out: Seq<u8>)
    ensures
        compresses(data, CompressionMethod::Zstd, level, out) <==> zstd_encodes(
            data,
            level as i32,
            out,
        ),
        level <= 9 || level > 16 ==> (compresses(data, CompressionMethod::Xz, level, out)
            <==> xz_encodes(data, level, out)),
        10 <= level <= 16 ==> (compresses(data, CompressionMethod::Xz, level, out)
            <==> xz_encodes(data, 9, out)),
        takes_level(CompressionMethod::Zstd, level),
        takes_level(CompressionMethod::Xz, level) <==> level <= 16 || 0x8000_0000 <= level
            <= 0x8000_0009,
        contents(CompressionMethod::Zstd, out) == zstd_contents(out),
        contents(CompressionMethod::Xz, out) == xz_contents(out),
{
}

}
