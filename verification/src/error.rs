//! What can go wrong while a payload is decoded or a record is persisted.
use vstd::prelude::*;

verus! {

/// The place in a payload at which decoding gave up.
#[derive(Debug, Clone, Copy, PartialEq, Eq, Structural)]
pub enum Fault {
    /// A length prefix or count needs more bytes than are left.
    TruncatedPrefix,
    /// A length prefix announces more than the bytes left can hold.
    TruncatedRecords,
    /// Bytes are left over after the last declared item.
    TrailingBytes,
    /// A grid payload holds fewer values than the grid has cells.
    MissingValues,
    /// A byte names no variant of the enumeration it was read as.
    UnknownValue(u8),
    /// A string of the table is not modified UTF-8.
    InvalidText,
    /// A table entry lacks the token that ends the biome.
    MissingSeparator,
    /// A state group does not begin with an opening brace.
    MissingOpeningBrace,
    /// A state group has no colon between key and value.
    MissingColon,
    /// The stream decoder rejected the compressed bytes.
    BadStream,
    /// The stream decoder stopped before it had read all of the input.
    UnreadInput,
}

/// The errors of this library.
#[derive(Debug, Clone, Copy, PartialEq, Eq, Structural)]
pub enum Error {
    /// A payload is malformed or truncated.
    CorruptStream(Fault),
    /// The compression tag names a codec that is not implemented.
    UnsupportedCodec(u8),
    /// A value was changed after decoding and holds no compressed bytes.
    NeedsRecompression,
    /// A row holds a value that its column cannot have.
    SchemaMismatch,
    /// A grid was built from the wrong number of cells: the surplus, or the
    /// deficit as a negative number.
    GridArityMismatch(isize),
    /// An insert changed this many rows, and not one.
    StatementChangedRows(usize),
}

} // verus!
