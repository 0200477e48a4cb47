//! Tracks as a crawler keeps them.
use crate::track_response::ApiTrackResponse;
use vstd::prelude::*;

verus! {

/// A track that was fetched, to be stored as it came.
#[derive(Debug, Clone, PartialEq)]
pub struct CrawledApiTrackResponse(pub ApiTrackResponse);

} // verus!
