use vstd::prelude::*;

verus! {

/// Every way a font buffer can be rejected. All decoding errors are
/// terminal: decoding an immutable byte buffer is deterministic, so the
/// caller is told what is wrong and nothing is retried.
#[derive(Clone, Copy, Debug, PartialEq, Eq, Structural)]
pub enum FontError {
    /// A fixed-width read, or a table or array computed from declared
    /// sizes, extends past the end of the buffer.
    TruncatedBuffer,
    /// The head table's magic field is not 0x5F0F3CF5.
    InvalidMagicNumber,
    /// A mandatory table (identified by its 4-byte tag packed big-endian
    /// into a u32) is absent.
    MissingRequiredTable(u32),
    /// The selected cmap subtable declares a format other than 4.
    UnsupportedCMapFormat(u16),
    /// The head table's indexToLocFormat field is neither 0 nor 1.
    UnsupportedFormat,
    /// The format 4 segment arrays are inconsistent with the declared
    /// table length, or violate the segment ordering invariants.
    MalformedSegmentTable,
    /// A glyph id at or beyond the loca table's last entry.
    GlyphIdOutOfRange,
}

} // verus!
