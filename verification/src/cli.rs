//! The dub languages that aniSearch can be asked for.

use vstd::prelude::*;

verus! {

/// A language in which dubs are searched.
#[derive(Debug, Clone, Copy, PartialEq, Eq, Structural)]
pub enum Language {
    German,
    English,
    French,
    Italian,
    Spanish,
}

impl Language {
    /// The two-letter code under which aniSearch files this language.
    pub open spec fn code(self) -> Seq<char> {
        match self {
            Language::German => "de"@,
            Language::English => "en"@,
            Language::French => "fr"@,
            Language::Italian => "it"@,
            Language::Spanish => "es"@,
        }
    }

    /// Returns the language code that aniSearch uses in its URLs and in the
    /// `lang` attributes of its markup.
    pub fn get_anisearch_language(&self) -> (code: &'static str)
        ensures
            code@ == self.code(),
    {
        match self {
            Language::German => "de",
            Language::English => "en",
            Language::French => "fr",
            Language::Italian => "it",
            Language::Spanish => "es",
        }
    }
}

} // verus!
