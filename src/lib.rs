//! A text-comparison engine: normalisation, script-aware segmentation, a
//! character-level LCS diff, a segment-level walk, chunked streaming and
//! statistics, together with report rendering and document text helpers.
pub mod text;
pub mod segment;
pub mod types;
pub mod char_diff;
pub mod segment_diff;
pub mod stats;
pub mod bounds;
pub mod engine;
pub mod laws;
pub mod security;
pub mod file_parser;
pub mod markdown;
pub mod format;
pub mod exporter;

pub use types::{DiffChunk, DiffItem, DiffOptions, DiffResult, DiffStats, DiffType, Position, Similarity};
pub use engine::{DiffEngine, DiffStream};
pub use security::{sanitize_path, validate_input};
pub use file_parser::{
    DocumentFormat, DocumentMetadata, FileParser, OcrEngine, ParseError, ParsedDocument, StyleInfo,
    StyleType, TesseractOcr,
};
pub use exporter::{ExportError, ExportFormat, ExportOptions, ExportStyles, Exporter};
