use vstd::prelude::*;

verus! {

/// The ways in which one scrape of the GPU pipeline can fail.
#[derive(Debug, Clone, Copy, PartialEq, Eq, Structural)]
pub enum ExporterError {
    /// The query tool could not be started, or it exited abnormally.
    Invocation,
    /// A row of the tool's output is not well-formed comma-separated text.
    Parse,
    /// A row lacks the name or the index column.
    Mapping,
}

impl ExporterError {
    /// A short human-readable description of the error.
    pub fn describe(&self) -> (r: String)
        ensures
            *self == ExporterError::Invocation ==> r@ == "failed to run the GPU query tool"@,
            *self == ExporterError::Parse ==> r@ == "malformed row in the GPU query output"@,
            *self == ExporterError::Mapping ==> r@ == "row without GPU name or index"@,
    {
        match self {
            ExporterError::Invocation => String::from_str("failed to run the GPU query tool"),
            ExporterError::Parse => String::from_str("malformed row in the GPU query output"),
            ExporterError::Mapping => String::from_str("row without GPU name or index"),
        }
    }
}

} // verus!
