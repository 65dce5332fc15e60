//! Errors of decoding and exporting a metalib.
use vstd::prelude::*;

verus! {

/// The two byte layouts in which a field has an offset and a size.
#[derive(Clone, Copy, Debug, PartialEq, Eq, Structural)]
pub enum Space {
    /// The packed (wire) layout.
    Net,
    /// The aligned in-memory layout.
    Host,
}

/// An attribute of the binary format that this library deliberately does not
/// reconstruct.
#[derive(Clone, Copy, Debug, PartialEq, Eq, Structural)]
pub enum Unsupported {
    /// A default value of a type with no textual form here (date, time, ip, wide text, ...).
    DefaultValueType,
    /// An `io` code outside 0..=3.
    IoMode,
    /// A custom element size on a field whose type has size 0.
    ZeroSizedUnit,
    ExtendToTable,
    AutoIncrement,
    CustomAttribute,
    PrimaryKey,
    SplitTableFactor,
    SplitTableKey,
    SplitTableRule,
    DependOnTable,
    UniqueEntryName,
}

/// Why a decode or an export failed.
#[derive(Clone, Copy, Debug, PartialEq, Eq, Structural)]
pub enum MetalibError {
    /// A read at `position` would pass the end of the available bytes.
    BufferTruncated { position: u64 },
    /// A type tag outside the known catalogue.
    UnknownTypeTag { tag: i32 },
    /// An offset used as a record key matches no decoded record.
    DanglingReference { offset: i32 },
    /// No field path lies at `target` in the given layout.
    ResolutionFailed { target: i32, space: Space },
    /// The record at `record` contradicts the layout of the format, as a
    /// constant group whose recorded array offsets are not where its arrays lie.
    InconsistentLayout { record: u64 },
    /// The record at `record` uses an attribute that is not reconstructed.
    UnsupportedAttribute { record: u64, attribute: Unsupported },
}

} // verus!
