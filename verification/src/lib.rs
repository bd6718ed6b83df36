//! Resolution of one media-segment URL from an MPEG-DASH manifest.
//!
//! Given the text of a manifest, a playback position, a media type, a role
//! and a bandwidth, `dash::dash_media_url_from_position` computes the URL of
//! the segment that a player should fetch next, or says why there is none.

pub mod adaptation;
pub mod dash;
pub mod error;
pub mod number;
pub mod period;
pub mod segment;
pub mod text;
pub mod time;
pub mod tree;
pub mod xml;
