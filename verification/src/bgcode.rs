//! Binary G-code containers: headers, block types and checksums.

use vstd::prelude::*;

verus! {

/// Outcomes of reading or writing a binary G-code file.
#[derive(Debug, Clone, Copy, PartialEq, Eq)]
pub enum Error {
    Success,
    ReadError,
    WriteError,
    InvalidMagicNumber,
    InvalidVersionNumber,
    InvalidChecksumType,
    InvalidBlockType,
    InvalidCompressionType,
    InvalidMetadataEncodingType,
    InvalidGCodeEncodingType,
    DataCompressionError,
    DataUncompressionError,
    MetadataEncodingError,
    MetadataDecodingError,
    GCodeEncodingError,
    GCodeDecodingError,
    BlockNotFound,
    InvalidChecksum,
    InvalidThumbnailFormat,
    InvalidThumbnailWidth,
    InvalidThumbnailHeight,
    InvalidThumbnailDataSize,
    InvalidBinaryGCodeFile,
    InvalidAsciiGCodeFile,
    InvalidSequenceOfBlocks,
    InvalidBuffer,
    AlreadyBinarized,
    MissingPrinterMetadata,
    MissingPrintMetadata,
    MissingSlicerMetadata,
}

/// Checksum algorithm of a file.
#[derive(Debug, Clone, Copy, PartialEq, Eq)]
pub enum ChecksumType {
    /// No checksum.
    Absent,
    CRC32,
}

/// The wire code of a checksum type.
pub open spec fn spec_checksum_code(t: ChecksumType) -> u16 {
    match t {
        ChecksumType::Absent => 0,
        ChecksumType::CRC32 => 1,
    }
}

/// The wire code of a checksum type.
pub fn checksum_code(t: ChecksumType) -> (c: u16)
    ensures
        c == spec_checksum_code(t),
{
    match t {
        ChecksumType::Absent => 0,
        ChecksumType::CRC32 => 1,
    }
}

/// Kind of a block.
#[derive(Debug, Clone, Copy, PartialEq, Eq)]
pub enum BlockType {
    FileMetadata,
    GCode,
    SlicerMetadata,
    PrinterMetadata,
    PrintMetadata,
    Thumbnail,
}

/// Compression of a block's payload.
#[derive(Debug, Clone, Copy, PartialEq, Eq)]
pub enum CompressionType {
    /// Stored plain.
    Plain,
    Deflate,
    Heatshrink11_4,
    Heatshrink12_4,
}

/// The wire code of a compression type.
pub open spec fn spec_compression_code(t: CompressionType) -> u16 {
    match t {
        CompressionType::Plain => 0,
        CompressionType::Deflate => 1,
        CompressionType::Heatshrink11_4 => 2,
        CompressionType::Heatshrink12_4 => 3,
    }
}

/// The wire code of a compression type.
pub fn compression_code(t: CompressionType) -> (c: u16)
    ensures
        c == spec_compression_code(t),
{
    match t {
        CompressionType::Plain => 0,
        CompressionType::Deflate => 1,
        CompressionType::Heatshrink11_4 => 2,
        CompressionType::Heatshrink12_4 => 3,
    }
}

/// Encoding of metadata blocks.
#[derive(Debug, Clone, Copy, PartialEq, Eq)]
pub enum MetadataEncodingType {
    INI,
}

/// Encoding of G-code blocks.
#[derive(Debug, Clone, Copy, PartialEq, Eq)]
pub enum GCodeEncodingType {
    /// Plain text.
    Plain,
    MeatPack,
    MeatPackComments,
}

/// Image format of a thumbnail block.
#[derive(Debug, Clone, Copy, PartialEq, Eq)]
pub enum ThumbnailFormat {
    PNG,
    JPG,
    QOI,
}

/// The file header.
pub struct FileHeader {
    /// The magic `GCDE`.
    pub magic: u32,
    /// Version of the binarisation.
    pub version: u32,
    /// Wire code of the checksum algorithm.
    pub checksum_type: u16,
}

impl FileHeader {
    pub fn new(magic: u32, version: u32, checksum_type: u16) -> (h: FileHeader)
        ensures
            h.magic == magic,
            h.version == version,
            h.checksum_type == checksum_type,
    {
        FileHeader { magic, version, checksum_type }
    }
}

/// One block's header.
pub struct BlockHeader {
    pub type_: u16,
    pub compression: u16,
    pub uncompressed_size: u32,
    pub compressed_size: u32,
    /// Offset of the block in the file.
    pub position: usize,
}

impl BlockHeader {
    /// Where the block starts.
    pub fn get_position(&self) -> (p: usize)
        ensures
            p == self.position,
    {
        self.position
    }

    /// Bytes the block occupies: the uncompressed size when it is stored
    /// plain, the compressed size otherwise.
    pub fn get_size(&self) -> (s: u32)
        ensures
            s == if self.compression == spec_compression_code(CompressionType::Plain) {
                self.uncompressed_size
            } else {
                self.compressed_size
            },
    {
        if self.compression == compression_code(CompressionType::Plain) {
            return self.uncompressed_size;
        }
        self.compressed_size
    }
}

/// Parameters of a thumbnail block.
pub struct ThumbnailParams {
    pub format: u16,
    pub width: u16,
    pub height: u16,
}

/// A checksum in the making.
pub struct CheckSum {
    /// The algorithm in use.
    pub ty: ChecksumType,
}

impl CheckSum {
    pub fn new(ty: ChecksumType) -> (c: CheckSum)
        ensures
            c.ty == ty,
    {
        CheckSum { ty }
    }

    pub fn get_type(&self) -> (t: ChecksumType)
        ensures
            t == self.ty,
    {
        self.ty
    }
}

/// Whether a block's checksum needs verifying: an empty buffer is
/// rejected; a file without checksums passes at once; otherwise the block
/// must be read and checked.
pub fn checksum_check_needed(file_header: &FileHeader, buffer_len: usize) -> (r: Result<
    bool,
    Error,
>)
    ensures
        buffer_len == 0 ==> r == Err::<bool, Error>(Error::InvalidBuffer),
        buffer_len > 0 ==> r == Ok::<bool, Error>(
            file_header.checksum_type != spec_checksum_code(ChecksumType::Absent),
        ),
{
    if buffer_len == 0 {
        return Err(Error::InvalidBuffer);
    }
    Ok(file_header.checksum_type != checksum_code(ChecksumType::Absent))
}

} // verus!
