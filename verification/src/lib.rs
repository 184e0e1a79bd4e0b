//! Verified scanner for CCSDS-style Orbital Ephemeris Message (OEM) text.
//!
//! The library ingests one in-memory OEM document and produces a structured
//! record: the metadata text, the free-form trajectory annotation, and the
//! ordered series of state vectors found in the coordinate section.

pub mod record;
pub mod scan;
pub mod section;
pub mod text;
pub mod vector;

pub use record::Satellite;
pub use scan::LineIssue;
pub use scan::ScanOutcome;
pub use scan::construct_oem;
pub use scan::scan_document;
pub use section::Section;
pub use text::chars_of;
pub use text::contains_chars;
pub use text::string_of;
pub use text::strip_pattern;
pub use text::tokenize;
pub use vector::Epoch;
pub use vector::StateVector;
pub use vector::VectorError;
pub use vector::is_numeric;
pub use vector::parse_timestamp;
