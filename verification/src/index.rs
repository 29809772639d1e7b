//! The reference index: which group of MyAnimeList ids stands behind each
//! aniSearch URL of the catalog, and how many of a group's URLs the listing
//! has shown so far.

use vstd::hash_map::StringHashMap;
use vstd::prelude::*;

use crate::anisearch::item_url;
use crate::anisearch::AnisearchClient;
use crate::anisearch::DubbedAnime;
use crate::database::Root;
use crate::ids::IdSet;
use crate::text::decimal_u64;
use crate::text::has_prefix_at;
use crate::text::holds_text;
use crate::text::parse_decimal;
use crate::text::texts;
use crate::text::to_chars;

verus! {

/// The start of the address of an anime on MyAnimeList.
pub open spec fn mal_anime_prefix() -> Seq<char> {
    "https://myanimelist.net/anime/"@
}

/// The id in the address of an anime on MyAnimeList: the address is the
/// prefix followed by nothing but the decimal digits of an id that a `u64`
/// holds.
pub open spec fn mal_id(url: Seq<char>) -> Option<u64> {
    if mal_anime_prefix().is_prefix_of(url) {
        decimal_u64(url.skip(mal_anime_prefix().len() as int))
    } else {
        None
    }
}

/// An address on MyAnimeList, of an anime or not.
pub open spec fn is_mal_url(url: Seq<char>) -> bool {
    "https://myanimelist.net/"@.is_prefix_of(url)
}

/// An address on aniSearch, of an anime or not.
pub open spec fn is_anisearch_url(url: Seq<char>) -> bool {
    "https://anisearch.com/"@.is_prefix_of(url)
}

/// The ids of the MyAnimeList addresses among the sources of an anime, in
/// the order of the sources; `None` where one of these addresses has no id.
pub open spec fn mal_ids(sources: Seq<Seq<char>>) -> Option<Seq<u64>>
    decreases sources.len(),
{
    if sources.len() == 0 {
        Some(Seq::empty())
    } else {
        match mal_ids(sources.drop_last()) {
            Some(front) => if is_mal_url(sources.last()) {
                match mal_id(sources.last()) {
                    Some(id) => Some(front.push(id)),
                    None => None,
                }
            } else {
                Some(front)
            },
            None => None,
        }
    }
}

/// The canonical URLs of the aniSearch addresses among the sources of an
/// anime, each once, in the order in which the sources first name them. An
/// address that has no canonical form, or one that names no item, is passed
/// over.
pub open spec fn target_urls(sources: Seq<Seq<char>>) -> Seq<Seq<char>>
    decreases sources.len(),
{
    if sources.len() == 0 {
        Seq::empty()
    } else {
        let front = target_urls(sources.drop_last());
        if is_anisearch_url(sources.last()) {
            match item_url(sources.last()) {
                Some(url) => if front.contains(url) {
                    front
                } else {
                    front.push(url)
                },
                None => front,
            }
        } else {
            front
        }
    }
}

/// The group of one anime of the catalog.
pub struct AnimeEntry {
    /// The MyAnimeList ids of the anime.
    pub mal_ids: Vec<u64>,
    /// The number of aniSearch URLs of the anime.
    pub validations_required: u64,
    /// The number of times that the listing has shown one of them.
    pub current_validations: u64,
}

/// A group with its ids as a sequence.
pub struct AnimeEntryView {
    pub mal_ids: Seq<u64>,
    pub validations_required: u64,
    pub current_validations: u64,
}

impl View for AnimeEntry {
    type V = AnimeEntryView;

    open spec fn view(&self) -> AnimeEntryView {
        AnimeEntryView {
            mal_ids: self.mal_ids@,
            validations_required: self.validations_required,
            current_validations: self.current_validations,
        }
    }
}

/// The views of a list of groups.
pub open spec fn entry_views(entries: Seq<AnimeEntry>) -> Seq<AnimeEntryView> {
    entries.map_values(|entry: AnimeEntry| entry@)
}

/// The reference index as a value: the groups in the order of the catalog,
/// and for each aniSearch URL the place of its group.
pub struct ReferenceIndexView {
    pub entries: Seq<AnimeEntryView>,
    pub by_url: Map<Seq<char>, usize>,
}

impl ReferenceIndexView {
    /// Every URL leads to a group that is there.
    pub open spec fn well_formed(self) -> bool {
        forall|url: Seq<char>| #[trigger]
            self.by_url.dom().contains(url) ==> self.by_url[url] < self.entries.len()
    }

    /// No group has been seen in the listing yet.
    pub open spec fn fresh(self) -> bool {
        forall|g: int| 0 <= g < self.entries.len() ==> (#[trigger] self.entries[g]).current_validations == 0
    }

    /// The ids of the group behind a URL; none where the index does not know
    /// the URL.
    pub open spec fn group_ids(self, url: Seq<char>) -> Set<u64> {
        if self.by_url.dom().contains(url) {
            self.entries[self.by_url[url] as int].mal_ids.to_set()
        } else {
            Set::empty()
        }
    }
}

/// The count of a group after one more of its URLs was seen. The count
/// stops at the largest `u64`.
pub open spec fn one_more(count: u64) -> u64 {
    if count < u64::MAX {
        (count + 1) as u64
    } else {
        count
    }
}

/// The index and the set of dubbed ids after the listing has shown `url`.
///
/// A URL that the index does not know changes nothing. Any other counts
/// for its group, each time that it is shown; when the count comes to the
/// validations required, the ids of the group join the dubbed ids.
pub open spec fn observe(index: ReferenceIndexView, dubbed: Set<u64>, url: Seq<char>) -> (
    ReferenceIndexView,
    Set<u64>,
) {
    if index.by_url.dom().contains(url) {
        let at = index.by_url[url] as int;
        let entry = index.entries[at];
        let count = one_more(entry.current_validations);
        (
            ReferenceIndexView {
                entries: index.entries.update(
                    at,
                    AnimeEntryView { current_validations: count, ..entry },
                ),
                by_url: index.by_url,
            },
            if count == entry.validations_required {
                dubbed + entry.mal_ids.to_set()
            } else {
                dubbed
            },
        )
    } else {
        (index, dubbed)
    }
}

/// The index and the set of dubbed ids after the listing has shown each of
/// `urls` in turn.
pub open spec fn observe_all(index: ReferenceIndexView, dubbed: Set<u64>, urls: Seq<Seq<char>>) -> (
    ReferenceIndexView,
    Set<u64>,
)
    decreases urls.len(),
{
    if urls.len() == 0 {
        (index, dubbed)
    } else {
        let before = observe_all(index, dubbed, urls.drop_last());
        observe(before.0, before.1, urls.last())
    }
}

/// The index without any group.
pub open spec fn empty_index() -> ReferenceIndexView {
    ReferenceIndexView { entries: Seq::empty(), by_url: Map::empty() }
}

/// The map in which each of `targets` leads to the group at `entry` and
/// every other URL where it led before.
pub open spec fn registered(
    by_url: Map<Seq<char>, usize>,
    targets: Seq<Seq<char>>,
    entry: usize,
) -> Map<Seq<char>, usize> {
    Map::new(
        |url: Seq<char>| by_url.dom().contains(url) || targets.contains(url),
        |url: Seq<char>|
            if targets.contains(url) {
                entry
            } else {
                by_url[url]
            },
    )
}

/// The index with one more anime of the catalog taken in.
///
/// An anime without a MyAnimeList address, or with one that has no id,
/// leaves the index as it is. Any other gets a group of its own: its ids,
/// the number of its distinct aniSearch URLs as the validations required,
/// and none seen yet. Each of those URLs then leads to the new group,
/// wherever it led before.
pub open spec fn with_anime(index: ReferenceIndexView, sources: Seq<Seq<char>>) -> ReferenceIndexView {
    match mal_ids(sources) {
        Some(ids) => if ids.len() > 0 {
            ReferenceIndexView {
                entries: index.entries.push(
                    AnimeEntryView {
                        mal_ids: ids,
                        validations_required: target_urls(sources).len() as u64,
                        current_validations: 0,
                    },
                ),
                by_url: registered(
                    index.by_url,
                    target_urls(sources),
                    index.entries.len() as usize,
                ),
            }
        } else {
            index
        },
        None => index,
    }
}

/// The index of a catalog, given as the sources of each anime.
pub open spec fn index_of_catalog(catalog: Seq<Seq<Seq<char>>>) -> ReferenceIndexView
    decreases catalog.len(),
{
    if catalog.len() == 0 {
        empty_index()
    } else {
        with_anime(index_of_catalog(catalog.drop_last()), catalog.last())
    }
}

/// The index of a catalog is sound, and none of its groups has been seen.
pub proof fn lemma_index_of_catalog(catalog: Seq<Seq<Seq<char>>>)
    ensures
        index_of_catalog(catalog).well_formed(),
        index_of_catalog(catalog).fresh(),
    decreases catalog.len(),
{
    if catalog.len() > 0 {
        lemma_index_of_catalog(catalog.drop_last());
    }
}

/// The number of times that `urls` names a URL of the group at `entry`.
pub open spec fn hits(by_url: Map<Seq<char>, usize>, entry: int, urls: Seq<Seq<char>>) -> nat
    decreases urls.len(),
{
    if urls.len() == 0 {
        0
    } else {
        let front = hits(by_url, entry, urls.drop_last());
        if by_url.dom().contains(urls.last()) && by_url[urls.last()] == entry {
            front + 1
        } else {
            front
        }
    }
}

/// A count as a `u64`, stopped at the largest one.
pub open spec fn capped(count: nat) -> u64 {
    if count <= u64::MAX {
        count as u64
    } else {
        u64::MAX
    }
}

/// The group at `entry` has URLs, and `urls` names them at least as often
/// as the group has URLs.
pub open spec fn has_quorum(index: ReferenceIndexView, entry: int, urls: Seq<Seq<char>>) -> bool {
    1 <= index.entries[entry].validations_required <= hits(index.by_url, entry, urls)
}

/// The ids of the groups that have their quorum.
pub open spec fn quorum_ids(index: ReferenceIndexView, urls: Seq<Seq<char>>) -> Set<u64> {
    Set::new(
        |id: u64|
            exists|g: int|
                0 <= g < index.entries.len() && #[trigger] has_quorum(index, g, urls)
                    && index.entries[g].mal_ids.contains(id),
    )
}

/// Quorum: from a fresh index on, a group hands its ids to the dubbed ids
/// exactly when the listing has shown URLs of the group as many times as
/// the group has URLs, and not before. So a group of three URLs adds
/// nothing after two sightings, and adds its ids with the third.
///
/// Each group counts its own sightings, up to the largest `u64`; nothing
/// else in the index changes.
pub proof fn lemma_quorum(index: ReferenceIndexView, dubbed: Set<u64>, urls: Seq<Seq<char>>)
    requires
        index.well_formed(),
        index.fresh(),
    ensures
        observe_all(index, dubbed, urls).0.by_url == index.by_url,
        observe_all(index, dubbed, urls).0.entries.len() == index.entries.len(),
        forall|g: int|
            0 <= g < index.entries.len() ==> #[trigger] observe_all(index, dubbed, urls).0.entries[g]
                == (AnimeEntryView {
                current_validations: capped(hits(index.by_url, g, urls)),
                ..index.entries[g]
            }),
        observe_all(index, dubbed, urls).1 == dubbed + quorum_ids(index, urls),
    decreases urls.len(),
{
    if urls.len() == 0 {
        assert forall|id: u64| !quorum_ids(index, urls).contains(id) by {
            assert forall|g: int| 0 <= g < index.entries.len() implies !has_quorum(
                index,
                g,
                urls,
            ) by {}
        }
        assert(dubbed + quorum_ids(index, urls) =~= dubbed);
        assert forall|g: int| 0 <= g < index.entries.len() implies #[trigger] index.entries[g]
            == (AnimeEntryView {
            current_validations: capped(hits(index.by_url, g, urls)),
            ..index.entries[g]
        }) by {}
    } else {
        let front = urls.drop_last();
        let url = urls.last();
        lemma_quorum(index, dubbed, front);
        let before = observe_all(index, dubbed, front);
        let after = observe_all(index, dubbed, urls);
        assert(after == observe(before.0, before.1, url));
        if index.by_url.dom().contains(url) {
            let at = index.by_url[url] as int;
            let seen = hits(index.by_url, at, front);
            let required = index.entries[at].validations_required;
            assert(before.0.entries[at].current_validations == capped(seen));
            assert(hits(index.by_url, at, urls) == seen + 1);
            assert(one_more(capped(seen)) == capped(seen + 1));
            assert forall|g: int| 0 <= g < index.entries.len() implies #[trigger] after.0.entries[g]
                == (AnimeEntryView {
                current_validations: capped(hits(index.by_url, g, urls)),
                ..index.entries[g]
            }) by {
                assert(before.0.entries[g].mal_ids == index.entries[g].mal_ids);
            }
            assert forall|g: int| 0 <= g < index.entries.len() implies has_quorum(index, g, urls)
                == (has_quorum(index, g, front) || (g == at && required == seen + 1)) by {}
            assert forall|id: u64| after.1.contains(id) == (dubbed + quorum_ids(
                index,
                urls,
            )).contains(id) by {
                if quorum_ids(index, front).contains(id) {
                    let g = choose|g: int|
                        0 <= g < index.entries.len() && #[trigger] has_quorum(index, g, front)
                            && index.entries[g].mal_ids.contains(id);
                    assert(has_quorum(index, g, urls));
                }
                if quorum_ids(index, urls).contains(id) {
                    let g = choose|g: int|
                        0 <= g < index.entries.len() && #[trigger] has_quorum(index, g, urls)
                            && index.entries[g].mal_ids.contains(id);
                    if has_quorum(index, g, front) {
                        assert(quorum_ids(index, front).contains(id));
                    }
                }
                if capped(seen + 1) == required && index.entries[at].mal_ids.contains(id) {
                    if required == seen + 1 {
                        assert(has_quorum(index, at, urls));
                    } else {
                        assert(has_quorum(index, at, front));
                    }
                    assert(quorum_ids(index, urls).contains(id));
                }
            }
            assert(after.1 =~= dubbed + quorum_ids(index, urls));
        } else {
            assert forall|g: int| 0 <= g < index.entries.len() implies has_quorum(index, g, urls)
                == has_quorum(index, g, front) by {}
            assert(quorum_ids(index, urls) =~= quorum_ids(index, front));
        }
    }
}

/// Once a MyAnimeList address without an id is among the sources, the
/// sources as a whole give no ids.
pub(crate) proof fn lemma_mal_ids_prefix(sources: Seq<Seq<char>>, k: int)
    requires
        0 <= k <= sources.len(),
        mal_ids(sources.take(k)) is None,
    ensures
        mal_ids(sources) is None,
    decreases sources.len() - k,
{
    if k == sources.len() {
        assert(sources.take(k) =~= sources);
    } else {
        assert(sources.drop_last().take(k) =~= sources.take(k));
        lemma_mal_ids_prefix(sources.drop_last(), k);
    }
}

/// Reads the id out of the address of an anime on MyAnimeList.
pub fn mal_parse_id(anime_url: &str) -> (id: Option<u64>)
    ensures
        id == mal_id(anime_url@),
{
    proof {
        reveal_strlit("https://myanimelist.net/anime/");
    }
    let chars = to_chars(anime_url);
    assert(chars@.skip(0) == chars@);
    if has_prefix_at(&chars, 0, &to_chars("https://myanimelist.net/anime/")) {
        assert(chars@.skip(30) == chars@.subrange(30, chars@.len() as int));
        parse_decimal(&chars, 30, chars.len())
    } else {
        None
    }
}

/// Tells whether a text starts with `prefix`.
fn starts_with(s: &str, prefix: &str) -> (r: bool)
    ensures
        r == prefix@.is_prefix_of(s@),
{
    let chars = to_chars(s);
    assert(chars@.skip(0) == chars@);
    has_prefix_at(&chars, 0, &to_chars(prefix))
}

/// Reads the sources of one anime: its MyAnimeList ids and its distinct
/// canonical aniSearch URLs, or `None` where the anime gets no group.
fn read_sources(sources: &Box<[String]>) -> (r: Option<(Vec<u64>, Vec<String>)>)
    ensures
        match r {
            Some((ids, targets)) => {
                &&& mal_ids(texts(sources@)) == Some(ids@)
                &&& ids@.len() > 0
                &&& texts(targets@) == target_urls(texts(sources@))
            },
            None => match mal_ids(texts(sources@)) {
                Some(ids) => ids.len() == 0,
                None => true,
            },
        },
{
    let ghost all = texts(sources@);
    let mut ids: Vec<u64> = Vec::new();
    let mut targets: Vec<String> = Vec::new();
    let mut i: usize = 0;
    while i < sources.len()
        invariant
            i <= sources@.len(),
            all == texts(sources@),
            mal_ids(all.take(i as int)) == Some(ids@),
            texts(targets@) == target_urls(all.take(i as int)),
        decreases sources@.len() - i,
    {
        let source: &String = &sources[i];
        proof {
            assert(all.take(i + 1).drop_last() =~= all.take(i as int));
            assert(all.take(i + 1).last() == source@);
        }
        if starts_with(source.as_str(), "https://myanimelist.net/") {
            match mal_parse_id(source.as_str()) {
                Some(id) => {
                    ids.push(id);
                },
                None => {
                    proof {
                        lemma_mal_ids_prefix(all, i + 1);
                    }
                    return None;
                },
            }
        }
        if starts_with(source.as_str(), "https://anisearch.com/") {
            match AnisearchClient::item_url(source.as_str()) {
                Some(url) => {
                    if !holds_text(&targets, &url) {
                        let ghost before = targets@;
                        targets.push(url);
                        assert(texts(targets@) =~= texts(before).push(url@));
                    }
                },
                None => {},
            }
        }
        i = i + 1;
    }
    assert(all.take(i as int) =~= all);
    if ids.len() > 0 {
        Some((ids, targets))
    } else {
        None
    }
}

/// The reference index. Groups sit in a list, and each URL is mapped to the
/// place of its group, so that several URLs can share one group.
pub struct ReferenceIndex {
    entries: Vec<AnimeEntry>,
    by_url: StringHashMap<usize>,
}

impl View for ReferenceIndex {
    type V = ReferenceIndexView;

    closed spec fn view(&self) -> ReferenceIndexView {
        ReferenceIndexView { entries: entry_views(self.entries@), by_url: self.by_url@ }
    }
}

impl ReferenceIndex {
    #[verifier::type_invariant]
    spec fn urls_lead_to_groups(&self) -> bool {
        forall|url: Seq<char>| #[trigger]
            self.by_url@.dom().contains(url) ==> self.by_url@[url] < self.entries@.len()
    }

    /// The ids of the group behind a URL, if the index knows the URL.
    pub fn ids_of(&self, url: &str) -> (ids: Option<&Vec<u64>>)
        ensures
            self@.well_formed(),
            ids is Some == self@.by_url.dom().contains(url@),
            ids matches Some(list) ==> list@.to_set() == self@.group_ids(url@),
    {
        proof {
            use_type_invariant(self);
        }
        match self.by_url.get(url) {
            Some(at) => Some(&self.entries[*at].mal_ids),
            None => None,
        }
    }

    /// Takes in that the listing has shown `url`.
    pub fn observe(&mut self, dubbed: &mut IdSet, url: &str)
        ensures
            (final(self)@, final(dubbed)@) == observe(old(self)@, old(dubbed)@, url@),
            final(self)@.well_formed(),
    {
        proof {
            use_type_invariant(&*self);
        }
        let found = match self.by_url.get(url) {
            Some(at) => Some(*at),
            None => None,
        };
        match found {
            Some(at) => {
                let ghost before = self.entries@;
                if self.entries[at].current_validations < u64::MAX {
                    self.entries[at].current_validations = self.entries[at].current_validations
                        + 1;
                }
                if self.entries[at].current_validations == self.entries[at].validations_required {
                    dubbed.extend(&self.entries[at].mal_ids);
                }
                assert(entry_views(self.entries@) =~= entry_views(before).update(
                    at as int,
                    self.entries@[at as int]@,
                ));
            },
            None => {},
        }
    }
}

/// Takes in a page of the listing: each of its URLs, in page order, counts
/// for its group, and the groups that come to their validations required
/// hand their ids to the dubbed ids.
pub fn process_dubbed_page(
    dubbed_mal_ids: &mut IdSet,
    anisearch_map: &mut ReferenceIndex,
    dubbed_anime: &DubbedAnime,
)
    ensures
        (final(anisearch_map)@, final(dubbed_mal_ids)@) == observe_all(
            old(anisearch_map)@,
            old(dubbed_mal_ids)@,
            dubbed_anime@.anisearch_urls,
        ),
{
    let ghost urls = dubbed_anime@.anisearch_urls;
    let mut i: usize = 0;
    while i < dubbed_anime.anisearch_urls.len()
        invariant
            i <= dubbed_anime.anisearch_urls@.len(),
            urls == texts(dubbed_anime.anisearch_urls@),
            (anisearch_map@, dubbed_mal_ids@) == observe_all(
                old(anisearch_map)@,
                old(dubbed_mal_ids)@,
                urls.take(i as int),
            ),
        decreases dubbed_anime.anisearch_urls@.len() - i,
    {
        proof {
            assert(urls.take(i + 1).drop_last() =~= urls.take(i as int));
            assert(urls.take(i + 1).last() == dubbed_anime.anisearch_urls@[i as int]@);
        }
        anisearch_map.observe(dubbed_mal_ids, dubbed_anime.anisearch_urls[i].as_str());
        i = i + 1;
    }
    assert(urls.take(i as int) =~= urls);
}

/// Builds the reference index of a catalog.
///
/// The catalog is taken in anime by anime, in order. Each anime with at
/// least one MyAnimeList address, all of which carry an id, gets a group;
/// its aniSearch addresses are brought to canonical form and lead to that
/// group. Where two anime share a URL, the later one has it.
pub fn get_anisearch_map(root: &Root) -> (index: ReferenceIndex)
    ensures
        index@ == index_of_catalog(root.sources()),
        index@.well_formed(),
        index@.fresh(),
{
    let ghost catalog = root.sources();
    proof {
        lemma_index_of_catalog(catalog);
    }
    let mut entries: Vec<AnimeEntry> = Vec::new();
    let mut by_url: StringHashMap<usize> = StringHashMap::with_capacity(root.data.len());
    let mut i: usize = 0;
    assert(entry_views(entries@) =~= Seq::<AnimeEntryView>::empty());
    while i < root.data.len()
        invariant
            i <= root.data@.len(),
            catalog == root.sources(),
            (ReferenceIndexView { entries: entry_views(entries@), by_url: by_url@ })
                == index_of_catalog(catalog.take(i as int)),
            forall|url: Seq<char>| #[trigger]
                by_url@.dom().contains(url) ==> by_url@[url] < entries@.len(),
        decreases root.data@.len() - i,
    {
        let anime = &root.data[i];
        proof {
            assert(catalog.take(i + 1).drop_last() =~= catalog.take(i as int));
            assert(catalog.take(i + 1).last() == texts(anime.sources@));
        }
        match read_sources(&anime.sources) {
            Some((mal_ids, targets)) => {
                let at = entries.len();
                let ghost entries_before = entries@;
                let ghost by_url_before = by_url@;
                entries.push(
                    AnimeEntry {
                        mal_ids,
                        validations_required: targets.len() as u64,
                        current_validations: 0,
                    },
                );
                assert(entry_views(entries@) =~= entry_views(entries_before).push(
                    entries@[at as int]@,
                ));
                let mut k: usize = 0;
                assert(by_url@ =~= registered(by_url_before, texts(targets@).take(0), at));
                while k < targets.len()
                    invariant
                        k <= targets.len(),
                        at < entries@.len(),
                        by_url@ == registered(by_url_before, texts(targets@).take(k as int), at),
                        forall|url: Seq<char>| #[trigger]
                            by_url_before.dom().contains(url) ==> by_url_before[url]
                                < entries@.len(),
                    decreases targets.len() - k,
                {
                    by_url.insert(targets[k].clone(), at);
                    proof {
                        let shorter = texts(targets@).take(k as int);
                        let longer = texts(targets@).take(k + 1);
                        assert(longer == shorter.push(targets@[k as int]@));
                        assert forall|url: Seq<char>| longer.contains(url) == (shorter.contains(
                            url,
                        ) || url == targets@[k as int]@) by {
                            if shorter.contains(url) {
                                let m = choose|m: int| 0 <= m < shorter.len() && shorter[m] == url;
                                assert(longer[m] == url);
                            }
                            if url == targets@[k as int]@ {
                                assert(longer[k as int] == url);
                            }
                            if longer.contains(url) {
                                let m = choose|m: int| 0 <= m < longer.len() && longer[m] == url;
                                if m < k {
                                    assert(shorter[m] == url);
                                }
                            }
                        }
                        assert(by_url@ =~= registered(by_url_before, longer, at));
                    }
                    k = k + 1;
                }
                assert(texts(targets@).take(k as int) =~= texts(targets@));
            },
            None => {},
        }
        i = i + 1;
    }
    assert(catalog.take(i as int) =~= catalog);
    ReferenceIndex { entries, by_url }
}

} // verus!
