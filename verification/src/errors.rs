use vstd::prelude::*;

verus! {

/// Every failure the decoders can report. The binary formats are
/// reverse-engineered, so each variant carries the numbers a maintainer needs
/// to recognize an unsupported format variant.
#[derive(Debug, Clone, Copy, PartialEq, Eq, Structural)]
pub enum DecodeError {
    /// A read or seek ran past the end of the buffer: the file is shorter
    /// than the structure it announces.
    ShortRead,
    /// The two redundant region-length fields of a sequence header disagree.
    HeaderMismatch { expected: i32, actual: i32 },
    /// The animation-type field does not hold the one supported value.
    UnsupportedAnimationType { actual: i32 },
    /// An indexed-rotation channel group has a nonzero channel count; that
    /// encoding branch is recognized but not decoded.
    UnsupportedIndexedRotation { channel_count: i16 },
    /// The bit widths of a channel group ask for more bytes per frame than
    /// the segment declares.
    TruncatedChannelData { needed_bytes: u32, declared_bytes: u32 },
    /// A channel descriptor asks for more bits per scalar than the decoder's
    /// accumulator holds.
    UnsupportedBitWidth { width: u8 },
    /// Name bytes are not valid text.
    InvalidUtf8,
    /// A bone name is missing from the fixed mirroring table.
    UnknownBoneName,
    /// A count, table offset or index read from the file points outside the
    /// structure it addresses.
    IndexOutOfRange { index: i64, limit: u64 },
}

} // verus!
