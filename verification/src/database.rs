//! The anime catalog as it is read from the offline database.

use vstd::prelude::*;

use crate::text::texts;

verus! {

/// An address, as text.
pub type Url = String;

/// The whole catalog.
#[derive(Debug)]
pub struct Root {
    pub license: License,
    pub repository: Url,
    pub last_update: String,
    pub data: Box<[Anime]>,
}

/// One anime of the catalog. `sources` holds the addresses under which other
/// sites list it.
#[derive(Debug)]
pub struct Anime {
    pub sources: Box<[Url]>,
    pub title: String,
    pub anime_type: Type,
    pub episodes: u32,
    pub status: Status,
    pub anime_season: AnimeSeason,
    pub picture: Url,
    pub thumbnail: Url,
    pub synonyms: Box<[String]>,
    pub relations: Box<[Url]>,
    pub tags: Box<[String]>,
}

/// The form in which an anime was released.
#[derive(Debug)]
pub enum Type {
    Tv,
    Movie,
    Ova,
    Ona,
    Special,
    Unknown,
}

/// Whether an anime has been aired.
#[derive(Debug)]
pub enum Status {
    Finished,
    Ongoing,
    Upcoming,
    Unknown,
}

/// The season in which an anime started.
#[derive(Debug)]
pub struct AnimeSeason {
    pub season: Season,
    pub year: Option<u32>,
}

/// A quarter of the year.
#[derive(Debug)]
pub enum Season {
    Spring,
    Summer,
    Fall,
    Winter,
    Undefined,
}

/// The licence under which the catalog is published.
#[derive(Debug)]
pub struct License {
    pub name: String,
    pub url: Url,
}

impl Anime {
    /// The addresses under which other sites list the anime, as texts.
    pub open spec fn source_texts(&self) -> Seq<Seq<char>> {
        texts(self.sources@)
    }
}

impl Root {
    /// For each anime of the catalog, its source addresses.
    pub open spec fn sources(&self) -> Seq<Seq<Seq<char>>> {
        self.data@.map_values(|anime: Anime| anime.source_texts())
    }
}

} // verus!
