//! Decoder for USB HID report descriptors.
//!
//! A report descriptor is a tag/length/value encoded byte stream that a HID
//! peripheral presents to describe the shape of the reports it exchanges with
//! the host. This crate parses such a stream into an immutable tree of
//! [`Collection`]s and [`Report`]s wrapped in a [`Descriptor`], which callers
//! walk to probe device capabilities.

use vstd::prelude::*;

pub mod color;
pub mod descriptor;
pub mod devices;
pub mod parser;
pub mod report;

pub use descriptor::Descriptor;
pub use parser::Parser;
pub use report::Collection;
pub use report::Report;
pub use report::ReportType;

verus! {

/// Every way a parse can fail. Each variant names one distinct cause; the
/// first failure ends the parse and is returned verbatim.
#[derive(Debug, Clone, Copy, PartialEq, Eq, Structural)]
pub enum Error {
    /// An `End Collection` tag with no open collection to close.
    UnexpectedEndCollection,
    /// The stream ended in the middle of an item (missing length/tag byte of
    /// a long item, or fewer payload bytes than the header declared).
    UnexpectedEndOfReportDescriptor,

    /// A `Usage Page` payload that does not decode to a u32.
    BadUsagePage,
    /// A `Usage` payload that does not decode to a u32.
    BadUsage,
    /// A `Usage Minimum` payload that does not decode to a u32.
    BadUsageMinimum,
    /// A `Usage Maximum` payload that does not decode to a u32.
    BadUsageMaximum,
    /// A `Report Size` payload that does not decode to a u32.
    BadReportSize,
    /// A `Report ID` payload that does not decode to a u32.
    BadReportId,
    /// A `Report Count` payload that does not decode to a u32.
    BadReportCount,
    /// A `Logical Minimum` payload that does not decode to an i32.
    BadLogicalMinimum,
    /// A `Logical Maximum` payload that does not decode to an i32.
    BadLogicalMaximum,
    /// A `Physical Minimum` payload that does not decode to an i32.
    BadPhysicalMinimum,
    /// A `Physical Maximum` payload that does not decode to an i32.
    BadPhysicalMaximum,
    /// A `Collection` payload that does not decode to a u32.
    BadCollection,

    /// A main item arrived before any `Usage Page` tag.
    UsagePageNotSet,
    /// A main item arrived before any `Usage` tag.
    UsageNotSet,
    /// A main item arrived before any `Report Size` tag.
    ReportSizeNotSet,
    /// A main item arrived before any `Report Count` tag.
    ReportCountNotSet,
    /// A main item arrived before any `Logical Minimum` tag.
    LogicalMinimumNotSet,
    /// A main item arrived before any `Logical Maximum` tag.
    LogicalMaximumNotSet,

    /// The stream ended with collections still open.
    MissingEndCollection,
    /// The stream ended with pushed global state never popped.
    MissingPop,
    /// A `Pop` tag with no matching `Push`.
    PopWithoutPush,
}

/// Parse one raw report descriptor into its collection tree. The one-shot
/// entry point: exactly `spec_parse` says which descriptor or which error
/// comes back for every byte sequence.
pub fn parse(data: &[u8]) -> (r: Result<Descriptor, Error>)
    ensures
        match r {
            Ok(d) => parser::spec_parse(data@) == Ok::<report::CollectionModel, Error>(d@),
            Err(e) => parser::spec_parse(data@) == Err::<report::CollectionModel, Error>(e),
        },
{
    Parser::default().parse(data)
}

} // verus!
