//! Error model of the composition engine.
//!
//! Every failure is local to one edit specification: the caller logs it and
//! moves on to the next specification. Nothing here is retried.

use vstd::prelude::*;

verus! {

/// Why one edit specification could not be planned or rendered.
///
/// The library itself only ever constructs `SpecParse` (a required field of
/// the specification document is missing) and `TimeParse` (a timestamp string
/// does not parse, or the timeline would not fit in the representable
/// millisecond range). The remaining variants describe failures of the
/// external media engine and of the filesystem; they are constructed by the
/// binary that drives the engine, so that one error type covers a whole job.
#[derive(Debug, PartialEq, Eq)]
pub enum PlanError {
    /// The specification document lacks a required field.
    SpecParse,
    /// A timestamp string is malformed, or a time value is out of range.
    TimeParse,
    /// The external engine failed while rendering one segment; carries the
    /// segment index and the engine's diagnostic output.
    SegmentRender(usize, String),
    /// The final concatenation / audio-mix invocation failed.
    Finalize(String),
    /// Thumbnail extraction failed; never fatal for the main output.
    Thumbnail(String),
    /// The raw source media file is absent.
    MissingSource,
}

impl PlanError {
    /// A short stable label for structured log records.
    pub fn label(&self) -> (r: &'static str)
        ensures
            self is SpecParse ==> r@ == "spec_parse_error"@,
            self is TimeParse ==> r@ == "time_parse_error"@,
            self is SegmentRender ==> r@ == "segment_render_error"@,
            self is Finalize ==> r@ == "finalize_error"@,
            self is Thumbnail ==> r@ == "thumbnail_error"@,
            self is MissingSource ==> r@ == "missing_source_error"@,
    {
        match self {
            PlanError::SpecParse => "spec_parse_error",
            PlanError::TimeParse => "time_parse_error",
            PlanError::SegmentRender(_, _) => "segment_render_error",
            PlanError::Finalize(_) => "finalize_error",
            PlanError::Thumbnail(_) => "thumbnail_error",
            PlanError::MissingSource => "missing_source_error",
        }
    }
}

} // verus!
