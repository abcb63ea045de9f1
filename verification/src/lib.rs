//! Extraction of typed records from the XML parts of an OOXML spreadsheet
//! package: worksheet data, the shared-string table, style definitions, the
//! workbook sheet list, and relationship files.
//!
//! Each document is turned into a flat sequence of structural XML events by a
//! low-level tokenizer, and a single-pass extractor then projects those events
//! into plain records. The extractors are verified against specification-level
//! state machines over the event sequence.

pub mod events;
pub mod numbers;
pub mod records;
pub mod relationships;
pub mod shared_strings;
pub mod strutil;
pub mod styles;
pub mod workbook;
pub mod worksheet;
pub mod xml;

pub use crate::records::{
    ParsedBorder, ParsedCell, ParsedFill, ParsedFont, ParsedHyperlink, ParsedRelationship,
    ParsedRow, ParsedSheetInfo, ParsedStyle, ParsedStyles, ParsedWorksheet,
};
pub use crate::relationships::parse_relationships;
pub use crate::shared_strings::parse_shared_strings;
pub use crate::styles::parse_styles;
pub use crate::workbook::parse_workbook;
pub use crate::worksheet::parse_worksheet;
