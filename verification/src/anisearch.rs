//! What is read out of aniSearch: canonical item URLs, the listing of dubbed
//! anime and the dub status of one anime.

use vstd::prelude::*;
use vstd::utf8::is_ascii_chars;

use crate::cli::Language;
use crate::markup::element_views;
use crate::markup::first_text;
use crate::markup::first_text_in;
use crate::markup::select;
use crate::markup::selected;
use crate::markup::Element;
use crate::markup::ElementView;
use crate::text::all_digits;
use crate::text::ascii_lower;
use crate::text::ascii_lowercase;
use crate::text::contains;
use crate::text::decimal_digits;
use crate::text::decimal_string;
use crate::text::decimal_u64;
use crate::text::digits_end;
use crate::text::has_prefix_at;
use crate::text::is_ascii_digit;
use crate::text::join_from;
use crate::text::leading_digits;
use crate::text::lemma_leading_digits;
use crate::text::lemma_leading_digits_are_digits;
use crate::text::lemma_not_prefix;
use crate::text::occurs_in;
use crate::text::parse_decimal;
use crate::text::push_digits;
use crate::text::texts;
use crate::text::to_ascii_lowercase;
use crate::text::to_chars;
use crate::text::trailing_digits;
use crate::text::trailing_digits_start;
use crate::text::trim_end;
use crate::text::trimmed_end;

verus! {

/// What `str::to_lowercase` makes of a text: its lower-case form by the
/// Unicode case mappings.
pub uninterp spec fn unicode_lowercase(s: Seq<char>) -> Seq<char>;

/// The lower-case form of a text. In a text of ASCII characters only the
/// capitals `A` to `Z` change; any other text is lowered by the Unicode case
/// mappings.
pub open spec fn lowercase(s: Seq<char>) -> Seq<char> {
    if is_ascii_chars(s) {
        ascii_lowercase(s)
    } else {
        unicode_lowercase(s)
    }
}

/// The start of every canonical item URL.
pub open spec fn anime_prefix() -> Seq<char> {
    "https://anisearch.com/anime/"@
}

/// A lower-case link with its origin brought to the form `https://` without
/// `www.`; a link without a host is taken as a path on aniSearch.
pub open spec fn with_origin(lower: Seq<char>) -> Seq<char> {
    if "https://www."@.is_prefix_of(lower) {
        "https://"@ + lower.skip("https://www."@.len() as int)
    } else if "https://"@.is_prefix_of(lower) {
        lower
    } else if "www."@.is_prefix_of(lower) {
        "https://"@ + lower.skip("www."@.len() as int)
    } else if "anisearch.com/"@.is_prefix_of(lower) {
        "https://"@ + lower
    } else {
        "https://anisearch.com/"@ + lower
    }
}

/// The canonical URL of the item that a lower-case link points to, if the
/// link leads to an item at all: the item prefix and the digits that follow
/// it in the link. A slug after the digits is dropped.
pub open spec fn canonical_of_lowercase(lower: Seq<char>) -> Option<Seq<char>> {
    let url = with_origin(lower);
    if anime_prefix().is_prefix_of(url) {
        Some(anime_prefix() + leading_digits(url.skip(anime_prefix().len() as int)))
    } else {
        None
    }
}

/// The canonical URL of the item that a link points to.
pub open spec fn canonical_url(raw: Seq<char>) -> Option<Seq<char>> {
    canonical_of_lowercase(lowercase(raw))
}

/// The canonical URL of the item that a link points to, where it can stand
/// for an item: a canonical URL without digits names no item and is of no
/// use as an identity.
pub open spec fn item_url(raw: Seq<char>) -> Option<Seq<char>> {
    match canonical_url(raw) {
        Some(url) => if url.len() > anime_prefix().len() {
            Some(url)
        } else {
            None
        },
        None => None,
    }
}

/// A result that carries the given canonical URL, or fails where there is
/// none.
pub open spec fn is_url_result(r: Result<String, ()>, url: Option<Seq<char>>) -> bool {
    match url {
        Some(canonical) => r matches Ok(s) && s@ == canonical,
        None => r is Err,
    }
}

/// The shape of a canonical URL: the item prefix, followed by ASCII digits
/// and nothing else. One that stands for an item has at least one digit.
pub proof fn lemma_canonical_url_shape(raw: Seq<char>)
    ensures
        canonical_url(raw) matches Some(url) ==> anime_prefix().is_prefix_of(url) && all_digits(
            url.skip(anime_prefix().len() as int),
        ),
        item_url(raw) matches Some(url) ==> canonical_url(raw) == Some(url) && url.len()
            > anime_prefix().len(),
{
    if let Some(url) = canonical_url(raw) {
        let rest = with_origin(lowercase(raw)).skip(anime_prefix().len() as int);
        lemma_leading_digits_are_digits(rest);
        assert(url.skip(anime_prefix().len() as int) =~= leading_digits(rest));
        assert(url.subrange(0, anime_prefix().len() as int) =~= anime_prefix());
    }
}

/// Normalising is idempotent: the canonical URL of a link is its own
/// canonical URL.
pub proof fn lemma_canonical_url_idempotent(raw: Seq<char>)
    ensures
        canonical_url(raw) matches Some(canonical) ==> canonical_url(canonical) == Some(
            canonical,
        ),
{
    if let Some(canonical) = canonical_url(raw) {
        reveal_strlit("https://www.");
        reveal_strlit("https://");
        reveal_strlit("https://anisearch.com/anime/");
        let prefix = anime_prefix();
        let digits = leading_digits(with_origin(lowercase(raw)).skip(prefix.len() as int));
        lemma_leading_digits_are_digits(with_origin(lowercase(raw)).skip(prefix.len() as int));
        assert(canonical == prefix + digits);
        assert forall|i: int| 0 <= i < canonical.len() implies '\0' <= #[trigger] canonical[i]
            <= '\u{7f}' && ascii_lower(canonical[i]) == canonical[i] by {
            if i >= prefix.len() {
                assert(is_ascii_digit(digits[i - prefix.len()]));
            }
        }
        assert(ascii_lowercase(canonical) =~= canonical);
        assert(lowercase(canonical) == canonical);
        lemma_not_prefix("https://www."@, canonical, 8);
        assert("https://"@.is_prefix_of(canonical));
        assert(with_origin(canonical) == canonical);
        assert(prefix.is_prefix_of(canonical));
        assert(canonical.skip(prefix.len() as int) =~= digits);
        lemma_leading_digits(digits, digits.len() as int);
        assert(digits.take(digits.len() as int) =~= digits);
    }
}

/// Calls `str::to_lowercase`, which lowers a text by the Unicode case
/// mappings and depends on nothing but the text.
#[verifier::external_body]
fn to_unicode_lowercase(s: &str) -> (lower: String)
    ensures
        lower@ == unicode_lowercase(s@),
{
    s.to_lowercase()
}

/// The canonical URL for a link whose characters are already in lower case.
fn canonical_from_chars(lower: &Vec<char>) -> (r: Result<String, ()>)
    ensures
        is_url_result(r, canonical_of_lowercase(lower@)),
{
    proof {
        reveal_strlit("https://www.");
        reveal_strlit("https://");
        reveal_strlit("www.");
        reveal_strlit("anisearch.com/");
        reveal_strlit("https://anisearch.com/");
        reveal_strlit("https://anisearch.com/anime/");
    }
    let scheme = to_chars("https://");
    let url = if has_prefix_at(lower, 0, &to_chars("https://www.")) {
        join_from(&scheme, lower, 12)
    } else if has_prefix_at(lower, 0, &scheme) {
        join_from(&Vec::new(), lower, 0)
    } else if has_prefix_at(lower, 0, &to_chars("www.")) {
        join_from(&scheme, lower, 4)
    } else if has_prefix_at(lower, 0, &to_chars("anisearch.com/")) {
        join_from(&scheme, lower, 0)
    } else {
        join_from(&to_chars("https://anisearch.com/"), lower, 0)
    };
    assert(lower@.skip(0) == lower@);
    assert(Seq::<char>::empty() + lower@ =~= lower@);
    assert(url@ == with_origin(lower@));
    let prefix = "https://anisearch.com/anime/";
    if has_prefix_at(&url, 0, &to_chars(prefix)) {
        assert(url@.skip(0) == url@);
        let end = digits_end(&url, 28);
        let mut canonical = String::from_str(prefix);
        push_digits(&mut canonical, &url, 28, end);
        Ok(canonical)
    } else {
        assert(url@.skip(0) == url@);
        Err(())
    }
}

/// How far the dub of one anime has come.
#[derive(Debug, Clone, Copy, PartialEq, Eq, Structural)]
pub enum DubStatus {
    Complete,
    Incomplete,
    Upcoming,
    NeverReleased,
}

/// The status that the status text of a detail page settles by itself, if
/// it does: a text that holds `completed`, in capitals or not, says that the
/// dub is complete; else one that holds `upcoming` says that it is still to
/// come.
pub open spec fn status_by_text(status: Seq<char>) -> Option<DubStatus> {
    let status = ascii_lowercase(status);
    if occurs_in("completed"@, status) {
        Some(DubStatus::Complete)
    } else if occurs_in("upcoming"@, status) {
        Some(DubStatus::Upcoming)
    } else {
        None
    }
}

/// The status that the title text gives where the status text settles
/// nothing: never released if the title holds `never released`, in capitals
/// or not, else incomplete.
pub open spec fn status_by_info(info: Seq<char>) -> DubStatus {
    if occurs_in("never released"@, ascii_lowercase(info)) {
        DubStatus::NeverReleased
    } else {
        DubStatus::Incomplete
    }
}

/// The dub status that the two texts of a detail page give. The status text
/// is asked first; the title text counts, and must be there, only where the
/// status text says neither `completed` nor `upcoming`.
pub open spec fn dub_status_of_texts(status: Seq<char>, info: Option<Seq<char>>) -> Result<
    DubStatus,
    (),
> {
    match status_by_text(status) {
        Some(settled) => Ok(settled),
        None => match info {
            Some(info) => Ok(status_by_info(info)),
            None => Err(()),
        },
    }
}

impl DubStatus {
    /// The status that the status text settles by itself, if it does.
    pub fn from_status_text(status_text: &str) -> (r: Option<DubStatus>)
        ensures
            r == status_by_text(status_text@),
    {
        let status = to_ascii_lowercase(&to_chars(status_text));
        if contains(&status, &to_chars("completed")) {
            Some(DubStatus::Complete)
        } else if contains(&status, &to_chars("upcoming")) {
            Some(DubStatus::Upcoming)
        } else {
            None
        }
    }

    /// The status that the title text gives where the status text settles
    /// nothing.
    pub fn from_info_text(info_text: &str) -> (r: DubStatus)
        ensures
            r == status_by_info(info_text@),
    {
        let info = to_ascii_lowercase(&to_chars(info_text));
        if contains(&info, &to_chars("never released")) {
            DubStatus::NeverReleased
        } else {
            DubStatus::Incomplete
        }
    }

    /// Classifies a detail page by the text of its status region and, where
    /// the page has one, the text of its title region.
    pub fn from_texts(status_text: &str, info_text: Option<&str>) -> (r: Result<DubStatus, ()>)
        ensures
            r == dub_status_of_texts(
                status_text@,
                match info_text {
                    Some(info) => Some(info@),
                    None => None,
                },
            ),
    {
        match Self::from_status_text(status_text) {
            Some(settled) => Ok(settled),
            None => match info_text {
                Some(info) => Ok(Self::from_info_text(info)),
                None => Err(()),
            },
        }
    }
}

/// One page of the listing of dubbed anime.
pub struct DubbedAnime {
    /// The number of pages that the listing has.
    pub total_pages: u64,
    /// The canonical URLs of the anime on this page, in page order.
    pub anisearch_urls: Vec<String>,
}

/// A listing page with its URLs as sequences of characters.
pub struct DubbedAnimeView {
    pub total_pages: u64,
    pub anisearch_urls: Seq<Seq<char>>,
}

impl View for DubbedAnime {
    type V = DubbedAnimeView;

    open spec fn view(&self) -> DubbedAnimeView {
        DubbedAnimeView {
            total_pages: self.total_pages,
            anisearch_urls: texts(self.anisearch_urls@),
        }
    }
}

/// The number of pages that the text of the page navigation names: the
/// decimal number at the end of the text, white space after it apart. White
/// space before the text plays no part.
pub open spec fn page_count(page_info: Seq<char>) -> Option<u64> {
    decimal_u64(trailing_digits(trim_end(page_info)))
}

/// The canonical URLs of the links that have a target which leads to an
/// item, in the order of the links. A link without a target, a target that
/// is no item link and one that names no item are passed over.
pub open spec fn canonical_links(links: Seq<ElementView>) -> Seq<Seq<char>>
    decreases links.len(),
{
    if links.len() == 0 {
        Seq::empty()
    } else {
        let front = canonical_links(links.drop_last());
        match links.last().attribute {
            Some(target) => match item_url(target) {
                Some(url) => front.push(url),
                None => front,
            },
            None => front,
        }
    }
}

/// The listing page that a page-navigation text and the item links of a
/// page give, where the text names the number of pages.
pub open spec fn listing_of_parts(page_info: Option<Seq<char>>, links: Seq<ElementView>) -> Result<
    DubbedAnimeView,
    (),
> {
    match page_info {
        Some(text) => match page_count(text) {
            Some(total_pages) => Ok(
                DubbedAnimeView { total_pages, anisearch_urls: canonical_links(links) },
            ),
            None => Err(()),
        },
        None => Err(()),
    }
}

/// A result that carries the given listing page, or fails where there is
/// none.
pub open spec fn is_listing_result(r: Result<DubbedAnime, ()>, page: Result<DubbedAnimeView, ()>) -> bool {
    match page {
        Ok(view) => r matches Ok(listing) && listing@ == view,
        Err(_) => r is Err,
    }
}

impl DubbedAnime {
    /// Reads the number of pages at the end of the page-navigation text.
    pub fn parse_total_pages(page_info: &str) -> (r: Option<u64>)
        ensures
            r == page_count(page_info@),
    {
        let chars = to_chars(page_info);
        let end = trimmed_end(&chars);
        let start = trailing_digits_start(&chars, end);
        assert(chars@.subrange(start as int, end as int) == trailing_digits(trim_end(chars@)));
        parse_decimal(&chars, start, end)
    }

    /// Builds a listing page from the text of its page navigation and from
    /// its item links, each with its target in `attribute`.
    ///
    /// Fails exactly where the text does not end in a number of pages that a
    /// `u64` holds. Links that cannot be brought to canonical form, or whose
    /// canonical form names no item, are left out.
    pub fn from_parts(page_info: Option<&str>, links: &Vec<Element>) -> (r: Result<DubbedAnime, ()>)
        ensures
            is_listing_result(
                r,
                listing_of_parts(
                    match page_info {
                        Some(text) => Some(text@),
                        None => None,
                    },
                    element_views(links@),
                ),
            ),
    {
        let total_pages = match page_info {
            Some(text) => match Self::parse_total_pages(text) {
                Some(total_pages) => total_pages,
                None => { return Err(()); },
            },
            None => { return Err(()); },
        };
        let mut anisearch_urls: Vec<String> = Vec::new();
        let mut i: usize = 0;
        while i < links.len()
            invariant
                i <= links.len(),
                texts(anisearch_urls@) == canonical_links(element_views(links@).take(i as int)),
            decreases links.len() - i,
        {
            let ghost before = element_views(links@).take(i as int);
            let ghost after = element_views(links@).take(i + 1);
            assert(after.drop_last() =~= before);
            assert(after.last() == links@[i as int]@);
            match &links[i].attribute {
                Some(target) => match AnisearchClient::item_url(target.as_str()) {
                    Some(url) => {
                        let ghost urls = anisearch_urls@;
                        anisearch_urls.push(url);
                        assert(texts(anisearch_urls@) =~= texts(urls).push(url@));
                    },
                    None => {},
                },
                None => {},
            }
            i = i + 1;
        }
        assert(element_views(links@).take(i as int) =~= element_views(links@));
        Ok(DubbedAnime { total_pages, anisearch_urls })
    }
}

/// The attribute that holds the target of a link.
pub open spec fn link_attribute() -> Seq<char> {
    "href"@
}

/// The selector of the page navigation of a listing page.
pub open spec fn page_info_selector() -> Seq<char> {
    "div.pagenav-info"@
}

/// The selector of the item links of a listing page.
pub open spec fn anime_url_selector() -> Seq<char> {
    "th > a[lang]"@
}

/// The selector of the title region of a detail page in one language.
pub open spec fn dub_info_selector(language: Language) -> Seq<char> {
    "div.title[lang=\""@ + language.code() + "\"]"@
}

/// The selector of the status region of a detail page in one language: the
/// status that follows the title region.
pub open spec fn dub_status_selector(language: Language) -> Seq<char> {
    dub_info_selector(language) + " + div.status"@
}

/// The address of one page of the listing of the anime that are dubbed in a
/// language: a hundred to a page, by title.
pub open spec fn listing_url(language: Language, page: u64) -> Seq<char> {
    "https://www.anisearch.com/anime/index/page-"@ + decimal_digits(page as nat) + "?synchro="@
        + language.code() + "&sort=title&order=asc&view=2&limit=100"@
}

/// The listing page that a document holds.
pub open spec fn listing_in(document: Seq<char>) -> Result<DubbedAnimeView, ()> {
    match selected(document, anime_url_selector(), link_attribute()) {
        Some(links) => listing_of_parts(
            first_text(selected(document, page_info_selector(), link_attribute())),
            links,
        ),
        None => Err(()),
    }
}

/// The dub status that a document holds for a language. It has none where
/// the status region is missing, nor where the title region is missing and
/// the status text settles nothing.
pub open spec fn dub_status_in(language: Language, document: Seq<char>) -> Result<DubStatus, ()> {
    match first_text(selected(document, dub_status_selector(language), link_attribute())) {
        Some(status) => dub_status_of_texts(
            status,
            first_text(selected(document, dub_info_selector(language), link_attribute())),
        ),
        None => Err(()),
    }
}

/// The client's view of aniSearch for one dub language.
pub struct AnisearchClient {
    language: Language,
    selector_anime_dub_info: String,
    selector_anime_dub_status: String,
}

impl AnisearchClient {
    /// The selectors are those of the client's language.
    #[verifier::type_invariant]
    spec fn selectors_fit(&self) -> bool {
        &&& self.selector_anime_dub_info@ == dub_info_selector(self.language)
        &&& self.selector_anime_dub_status@ == dub_status_selector(self.language)
    }

    /// The language whose dubs the client looks for.
    pub closed spec fn language(&self) -> Language {
        self.language
    }

    /// A client for the dubs in one language.
    pub fn new(language: &Language) -> (client: AnisearchClient)
        ensures
            client.language() == *language,
    {
        let code = language.get_anisearch_language();
        let mut selector_anime_dub_info = String::from_str("div.title[lang=\"");
        selector_anime_dub_info.append(code);
        selector_anime_dub_info.append("\"]");
        let mut selector_anime_dub_status = selector_anime_dub_info.clone();
        selector_anime_dub_status.append(" + div.status");
        AnisearchClient { language: *language, selector_anime_dub_info, selector_anime_dub_status }
    }

    /// The address of page `page` of the listing of dubbed anime.
    pub fn dubbed_anime_list_url(&self, page: u64) -> (url: String)
        ensures
            url@ == listing_url(self.language(), page),
    {
        let mut url = String::from_str("https://www.anisearch.com/anime/index/page-");
        url.append(decimal_string(page).as_str());
        url.append("?synchro=");
        url.append(self.language.get_anisearch_language());
        url.append("&sort=title&order=asc&view=2&limit=100");
        url
    }

    /// Reads a listing page: the number of pages from the page navigation,
    /// and the canonical URL of each item link that has one.
    ///
    /// Fails where the document has no page navigation, or one that does
    /// not end in a number of pages.
    pub fn get_dubbed_anime_list(&self, document: &str) -> (r: Result<DubbedAnime, ()>)
        ensures
            is_listing_result(r, listing_in(document@)),
    {
        let page_info = select(document, "div.pagenav-info", "href");
        match select(document, "th > a[lang]", "href") {
            Some(links) => DubbedAnime::from_parts(first_text_in(&page_info), &links),
            None => Err(()),
        }
    }

    /// Reads the dub status off a detail page.
    ///
    /// Fails where the page has no status region in the client's language,
    /// or where that region says neither `completed` nor `upcoming` and the
    /// page has no title region in that language.
    pub fn get_dub_status(&self, document: &str) -> (r: Result<DubStatus, ()>)
        ensures
            r == dub_status_in(self.language(), document@),
    {
        proof {
            use_type_invariant(self);
        }
        let status_found = select(document, self.selector_anime_dub_status.as_str(), "href");
        match first_text_in(&status_found) {
            Some(status_text) => match DubStatus::from_status_text(status_text) {
                Some(settled) => Ok(settled),
                None => {
                    let info_found = select(
                        document,
                        self.selector_anime_dub_info.as_str(),
                        "href",
                    );
                    DubStatus::from_texts(status_text, first_text_in(&info_found))
                },
            },
            None => Err(()),
        }
    }

    /// Brings a lower-case link to its canonical form.
    ///
    /// Succeeds exactly on the links that lead to an item; the result then
    /// has the form `https://anisearch.com/anime/` followed by the item's
    /// digits. Where the link names no digits, the result is the bare prefix.
    pub fn canonical_from_lowercase(lower: &str) -> (r: Result<String, ()>)
        ensures
            is_url_result(r, canonical_of_lowercase(lower@)),
    {
        let chars = to_chars(lower);
        canonical_from_chars(&chars)
    }

    /// The canonical form of a link, where the link can stand for an item:
    /// `None` for a link that does not lead to an item, and for one whose
    /// canonical form has no digits.
    pub fn item_url(url: &str) -> (r: Option<String>)
        ensures
            match item_url(url@) {
                Some(canonical) => r matches Some(s) && s@ == canonical,
                None => r is None,
            },
    {
        proof {
            reveal_strlit("https://anisearch.com/anime/");
        }
        match Self::format_anisearch_url(url) {
            Ok(canonical) => {
                if canonical.as_str().unicode_len() > 28 {
                    Some(canonical)
                } else {
                    None
                }
            },
            Err(_) => None,
        }
    }

    /// Brings any link to an aniSearch item to its canonical form
    /// `https://anisearch.com/anime/<digits>`: in any case of its letters,
    /// with or without `https://`, `www.` and host, with or without a slug
    /// after the digits. Fails on a link that does not lead to an item.
    pub fn format_anisearch_url(url: &str) -> (r: Result<String, ()>)
        ensures
            is_url_result(r, canonical_url(url@)),
    {
        if url.is_ascii() {
            let lower = to_ascii_lowercase(&to_chars(url));
            canonical_from_chars(&lower)
        } else {
            let lower = to_unicode_lowercase(url);
            Self::canonical_from_lowercase(lower.as_str())
        }
    }
}

} // verus!
