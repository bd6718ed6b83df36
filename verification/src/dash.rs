//! The resolution from end to end: from a manifest, a position, a media
//! type, a role and a bandwidth to the URL of the segment to fetch.
//!
//! Positions are whole millionths of a second from the start of the
//! presentation.

use vstd::prelude::*;
use crate::adaptation::{adaptation_set_of, find_adaptation_set};
use crate::error::ResolveError;
use crate::period::{
    find_period,
    period_at,
    presentation_micros,
    requested_position_is_valid,
};
use crate::segment::{get_media_from_adaptation_set, media_url};
use crate::tree::{attribute_of, root_element, ManifestTree, NodeView};
use crate::xml::{parse_manifest, xml_nodes};

verus! {

/// The length of the presentation that a manifest describes: that of its
/// root element, zero where it has no root element.
pub open spec fn manifest_micros(tree: Seq<NodeView>) -> nat {
    match root_element(tree) {
        Some(mpd) => presentation_micros(tree, mpd),
        None => 0,
    }
}

/// The URL of the segment to fetch at `position`, for a media type, a
/// role and a bandwidth. The steps, each of which ends the resolution
/// where it fails: the position against the length of the presentation
/// (`InvalidPosition`), the period (`NoPeriodFound`), the adaptation set
/// (`NoAdaptationSet`), and the segment of that set at the position (see
/// `media_url`).
pub open spec fn resolved_url(
    tree: Seq<NodeView>,
    position: int,
    media_type: Seq<char>,
    role: Seq<char>,
    bandwidth: u32,
) -> Result<Seq<char>, ResolveError> {
    if position < 0 || position >= manifest_micros(tree) {
        Err(ResolveError::InvalidPosition)
    } else {
        match period_at(tree, root_element(tree).unwrap(), position) {
            None => Err(ResolveError::NoPeriodFound),
            Some(period) => match adaptation_set_of(tree, period, media_type, role) {
                None => Err(ResolveError::NoAdaptationSet),
                Some(set) => media_url(tree, set, bandwidth, position as nat),
            },
        }
    }
}

/// Whether `url` is the value `expected`, as text.
pub open spec fn is_url(url: Result<String, ResolveError>, expected: Result<Seq<char>, ResolveError>) -> bool {
    match url {
        Ok(text) => expected == Ok::<Seq<char>, ResolveError>(text@),
        Err(e) => expected == Err::<Seq<char>, ResolveError>(e),
    }
}

/// Resolves the URL of the segment to fetch at `position` (in millionths
/// of a second from the start of the presentation) for a media type, a role
/// and a bandwidth, in a manifest that has been read.
pub fn resolve_media_url(
    tree: &ManifestTree,
    position: i64,
    mime_type: &str,
    role: &str,
    bandwidth: u32,
) -> (url: Result<String, ResolveError>)
    ensures
        is_url(url, resolved_url(tree@, position as int, mime_type@, role@, bandwidth)),
{
    let mpd: usize = match tree.root_element() {
        Some(root) => root,
        None => {
            return Err(ResolveError::InvalidPosition);
        },
    };
    if position < 0 || !requested_position_is_valid(tree, mpd, position) {
        return Err(ResolveError::InvalidPosition);
    }
    let period: usize = match find_period(tree, mpd, position) {
        Ok(found) => found,
        Err(e) => {
            return Err(e);
        },
    };
    let set: usize = match find_adaptation_set(tree, period, mime_type, role) {
        Some(s) => s,
        None => {
            return Err(ResolveError::NoAdaptationSet);
        },
    };
    get_media_from_adaptation_set(tree, set, bandwidth, position as u64)
}

/// Resolves the URL of the segment to fetch at `position` (in millionths
/// of a second from the start of the presentation) for a media type, a role
/// and a bandwidth, from the XML text of a manifest. Text that is not
/// well-formed XML gives `MalformedDocument`; for the rest see
/// `resolved_url`.
pub fn dash_media_url_from_position(
    document: &str,
    position: i64,
    mime_type: &str,
    role: &str,
    bandwidth: u32,
) -> (url: Result<String, ResolveError>)
    ensures
        is_url(
            url,
            match xml_nodes(document@) {
                Some(nodes) => resolved_url(nodes, position as int, mime_type@, role@, bandwidth),
                None => Err(ResolveError::MalformedDocument),
            },
        ),
{
    match parse_manifest(document) {
        Ok(tree) => resolve_media_url(&tree, position, mime_type, role, bandwidth),
        Err(e) => Err(e),
    }
}

/// A negative position, and a position at or behind the end of the
/// presentation, is invalid whatever else the manifest holds: neither
/// periods nor adaptation sets nor templates are looked at.
pub proof fn lemma_invalid_position(
    tree: Seq<NodeView>,
    position: int,
    media_type: Seq<char>,
    role: Seq<char>,
    bandwidth: u32,
)
    requires
        position < 0 || position >= manifest_micros(tree),
    ensures
        resolved_url(tree, position, media_type, role, bandwidth) == Err::<
            Seq<char>,
            ResolveError,
        >(ResolveError::InvalidPosition),
{
}

/// A manifest without a `mediaPresentationDuration` on its root element,
/// or without a root element, has no valid position.
pub proof fn lemma_no_total_duration(
    tree: Seq<NodeView>,
    position: int,
    media_type: Seq<char>,
    role: Seq<char>,
    bandwidth: u32,
)
    requires
        root_element(tree) is None || attribute_of(
            tree,
            root_element(tree).unwrap(),
            "mediaPresentationDuration"@,
        ) is None,
    ensures
        resolved_url(tree, position, media_type, role, bandwidth) == Err::<
            Seq<char>,
            ResolveError,
        >(ResolveError::InvalidPosition),
{
}

} // verus!
