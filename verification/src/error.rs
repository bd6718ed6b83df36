//! Why a resolution produced no URL.

use vstd::prelude::*;

verus! {

/// The ways in which resolving a segment URL can fail.
#[derive(Debug, Clone, Copy, PartialEq, Eq, Structural)]
pub enum ResolveError {
    /// The manifest text is not well-formed XML.
    MalformedDocument,
    /// The manifest has no `Period` element.
    NoPeriodFound,
    /// The position is negative, or not before the end of the presentation.
    InvalidPosition,
    /// No `AdaptationSet` has the requested media type and role.
    NoAdaptationSet,
    /// The adaptation set has no `SegmentTemplate`, or the template has no
    /// `media` attribute.
    NoSegmentTemplate,
    /// The `SegmentTemplate` has no `duration` attribute.
    NoSegmentDuration,
    /// No `Representation` has the requested bandwidth, or the one that has
    /// it lacks an `id`.
    NoRepresentation,
    /// A numeric attribute is present but is no number, or too large a one.
    AttributeParseFailure,
    /// The segment duration is zero, or the segment number does not fit in
    /// 64 bits.
    SegmentIndexOutOfRange,
}

/// The diagnostic of each failure: the step that failed, and why.
pub open spec fn diagnostic(error: ResolveError) -> Seq<char> {
    match error {
        ResolveError::MalformedDocument => "the manifest is not well-formed XML"@,
        ResolveError::NoPeriodFound => "the manifest has no Period"@,
        ResolveError::InvalidPosition => "the requested position is out of range"@,
        ResolveError::NoAdaptationSet => "no AdaptationSet has the requested mimeType and role"@,
        ResolveError::NoSegmentTemplate => "no SegmentTemplate with a media attribute was found"@,
        ResolveError::NoSegmentDuration => "the SegmentTemplate has no duration"@,
        ResolveError::NoRepresentation => "no Representation with an id has the requested bandwidth"@,
        ResolveError::AttributeParseFailure => "a numeric attribute is not a number that can be used"@,
        ResolveError::SegmentIndexOutOfRange => "the segment number cannot be computed"@,
    }
}

impl ResolveError {
    /// The diagnostic of this failure, for a log.
    pub fn message(&self) -> (text: &'static str)
        ensures
            text@ == diagnostic(*self),
    {
        match self {
            ResolveError::MalformedDocument => "the manifest is not well-formed XML",
            ResolveError::NoPeriodFound => "the manifest has no Period",
            ResolveError::InvalidPosition => "the requested position is out of range",
            ResolveError::NoAdaptationSet => "no AdaptationSet has the requested mimeType and role",
            ResolveError::NoSegmentTemplate => "no SegmentTemplate with a media attribute was found",
            ResolveError::NoSegmentDuration => "the SegmentTemplate has no duration",
            ResolveError::NoRepresentation => "no Representation with an id has the requested bandwidth",
            ResolveError::AttributeParseFailure => "a numeric attribute is not a number that can be used",
            ResolveError::SegmentIndexOutOfRange => "the segment number cannot be computed",
        }
    }
}

} // verus!
