//! Merges heterogeneous documents - existing paginated documents and
//! raster images in several encodings - into one paginated output
//! document: rasters are flattened onto white, placed centered on a
//! fixed page, and the sources' object graphs are merged into one
//! graph with a single catalog and page list.

use vstd::prelude::*;

pub mod graph;
pub mod orchestrate;
pub mod pdf;
pub mod placement;
pub mod raster;
pub mod text;

verus! {

/// One input file as listed by the host's folder scan: an absolute path,
/// its display name, its extension, its modification time (seconds since
/// the Unix epoch) and its size in bytes.
#[derive(Debug, Clone)]
pub struct InvoiceFile {
    pub path: String,
    pub file_name: String,
    pub ext: String,
    pub modified_ts: i64,
    pub size: u64,
}

/// How the ordered file list is sorted before a merge run: by display
/// name (case-insensitively), by modification time ascending, or kept
/// in the caller-supplied order.
#[derive(Debug, Clone, Copy, PartialEq, Eq, Structural)]
pub enum SortMode {
    FileNameAsc,
    ModifiedAsc,
    Custom,
}

/// A merge invocation: the folder the files live in, the ordered file
/// list, the sort policy, and an optional output base name.
#[derive(Debug, Clone)]
pub struct MergeRequest {
    pub folder_path: String,
    pub files: Vec<InvoiceFile>,
    pub sort_mode: SortMode,
    pub output_file_name: Option<String>,
}

/// The outcome of a merge run: whether at least one file made it into
/// the output, the output path, the display names of the files that
/// failed, and a summary message when at least one failure occurred.
#[derive(Debug, Clone)]
pub struct MergeResult {
    pub success: bool,
    pub output_path: String,
    pub failed_files: Vec<String>,
    pub message: Option<String>,
}

/// The error taxonomy of a merge run. `NoFiles` and `InvalidFolder`
/// abort a whole run; `Io`, `Image` and `Pdf` carry a human-readable
/// description of a filesystem, raster-decode or document failure.
#[derive(Debug, Clone)]
pub enum MergeError {
    NoFiles,
    InvalidFolder,
    Io(String),
    Image(String),
    Pdf(String),
}

impl MergeError {
    /// A human-readable description of the error.
    pub fn message(&self) -> (r: String)
        ensures
            r@ == match self {
                MergeError::NoFiles => "no files eligible for merging"@,
                MergeError::InvalidFolder => "the selected folder is invalid"@,
                MergeError::Io(s) => "failed to read a file: "@ + s@,
                MergeError::Image(s) => "image decoding failed: "@ + s@,
                MergeError::Pdf(s) => "PDF processing failed: "@ + s@,
            },
    {
        match self {
            MergeError::NoFiles => "no files eligible for merging".to_owned(),
            MergeError::InvalidFolder => "the selected folder is invalid".to_owned(),
            MergeError::Io(s) => crate::text::str_concat("failed to read a file: ", s.as_str()),
            MergeError::Image(s) => crate::text::str_concat("image decoding failed: ", s.as_str()),
            MergeError::Pdf(s) => crate::text::str_concat("PDF processing failed: ", s.as_str()),
        }
    }
}

} // verus!
