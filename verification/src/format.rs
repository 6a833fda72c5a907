//! Compression format detection for .sp packages: a package is a zstd stream.
use crate::compression::{CompressionConfig, CompressionLevel};
use crate::errors::BuildError;
use crate::text::{concat, decimal, u64_to_string};
use vstd::prelude::*;

verus! {

/// Information about detected compression format
#[derive(Clone, Debug, PartialEq, Eq)]
pub struct CompressionFormatInfo {
    /// Detected compression configuration
    pub config: CompressionConfig,
    /// Total compressed size
    pub compressed_size: u64,
}

/// The zstd magic number: `28 B5 2F FD`.
pub open spec fn zstd_magic() -> Seq<u8> {
    seq![0x28u8, 0xB5u8, 0x2Fu8, 0xFDu8]
}

/// The bytes in decimal, separated by `, `.
pub open spec fn bytes_list(b: Seq<u8>) -> Seq<char>
    decreases b.len(),
{
    if b.len() == 0 {
        seq![]
    } else if b.len() == 1 {
        decimal(b[0] as nat)
    } else {
        bytes_list(b.drop_last()) + ", "@ + decimal(b.last() as nat)
    }
}

/// Whether the first bytes of a file are the zstd magic number.
pub fn is_zstd_magic(bytes: &[u8]) -> (r: bool)
    ensures
        r == (bytes@.len() >= 4 && bytes@.take(4) == zstd_magic()),
{
    if bytes.len() < 4 {
        return false;
    }
    let r = bytes[0] == 0x28 && bytes[1] == 0xB5 && bytes[2] == 0x2F && bytes[3] == 0xFD;
    proof {
        if r {
            assert(bytes@.take(4) =~= zstd_magic());
        } else {
            if bytes@.take(4) == zstd_magic() {
                assert(bytes@.take(4)[0] == bytes@[0]);
                assert(bytes@.take(4)[1] == bytes@[1]);
                assert(bytes@.take(4)[2] == bytes@[2]);
                assert(bytes@.take(4)[3] == bytes@[3]);
            }
        }
    }
    r
}

fn bytes_list_string(b: &[u8]) -> (r: String)
    ensures
        r@ == bytes_list(b@),
{
    let mut s = crate::text::owned("");
    proof {
        reveal_strlit("");
    }
    for i in 0..b.len()
        invariant
            s@ == bytes_list(b@.take(i as int)),
    {
        proof {
            assert(b@.take(i + 1).drop_last() == b@.take(i as int));
        }
        if i == 0 {
            s = u64_to_string(b[i] as u64);
            assert(b@.take(1) == seq![b@[0]]);
        } else {
            let t = concat(s.as_str(), ", ");
            s = concat(t.as_str(), u64_to_string(b[i] as u64).as_str());
        }
    }
    assert(b@.take(b@.len() as int) == b@);
    s
}

/// What a package file's first bytes and size say of its format: a zstd
/// stream, reported as balanced compression (its level cannot be read back)
/// with the file's size; an error naming the bytes otherwise.
pub fn detect_format(magic: &[u8], file_size: u64) -> (r: Result<CompressionFormatInfo, BuildError>)
    requires
        magic@.len() == 4,
    ensures
        match r {
            Ok(info) => magic@ == zstd_magic() && info.config.level == CompressionLevel::Balanced
                && info.compressed_size == file_size,
            Err(e) => magic@ != zstd_magic() && (e matches BuildError::Failed { message }
                && message@ == "Invalid package format: expected zstd magic bytes, got "@ + "["@ + bytes_list(magic@)
                + "]"@),
        },
{
    if is_zstd_magic(magic) {
        assert(magic@.take(4) == magic@);
        Ok(CompressionFormatInfo { config: CompressionConfig { level: CompressionLevel::Balanced }, compressed_size: file_size })
    } else {
        assert(magic@.take(4) == magic@);
        let a = concat("Invalid package format: expected zstd magic bytes, got ", "[");
        let b = concat(a.as_str(), bytes_list_string(magic).as_str());
        Err(BuildError::Failed { message: concat(b.as_str(), "]") })
    }
}

} // verus!
