//! Metadata logic of the Dale music-library actions: MusicBrainz URL and
//! identifier handling, release selection and track extraction from MusicBrainz
//! JSON, album manifest rendering, request pagination and retry decisions, and
//! cover hashing for tag embedding.
use vstd::prelude::*;

pub mod text;
pub mod fetch_models;
pub mod fetch_cli;
pub mod json;
pub mod decimal;
pub mod collect_models;
pub mod collect_musicbrainz;
pub mod requests;
pub mod manifest;
pub mod cover;
pub mod tags;
pub mod discogs;
pub mod batch;
pub mod laws;

verus! {
} // verus!
