//! Dub availability for an anime catalog: the rules that turn listing and
//! detail pages of aniSearch into the sets of dubbed and incompletely dubbed
//! MyAnimeList ids.

pub mod anisearch;
pub mod cli;
pub mod database;
pub mod fetch;
pub mod ids;
pub mod index;
pub mod markup;
pub mod reconcile;
pub mod text;
