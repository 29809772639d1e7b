use gen_data::anisearch::DubStatus;
use gen_data::anisearch::DubbedAnime;
use gen_data::database::Anime;
use gen_data::database::AnimeSeason;
use gen_data::database::License;
use gen_data::database::Root;
use gen_data::database::Season;
use gen_data::database::Status;
use gen_data::database::Type;
use gen_data::ids::IdSet;
use gen_data::index::get_anisearch_map;
use gen_data::index::process_dubbed_page;
use gen_data::reconcile::Action;
use gen_data::reconcile::Event;
use gen_data::reconcile::Reconciliation;
use gen_data::reconcile::Stage;

const A: &str = "https://anisearch.com/anime/1";
const B: &str = "https://anisearch.com/anime/2";
const C: &str = "https://anisearch.com/anime/3";

fn anime(sources: &[&str]) -> Anime {
    Anime {
        sources: sources.iter().map(|s| s.to_string()).collect(),
        title: "title".to_string(),
        anime_type: Type::Tv,
        episodes: 12,
        status: Status::Finished,
        anime_season: AnimeSeason { season: Season::Spring, year: Some(2001) },
        picture: String::new(),
        thumbnail: String::new(),
        synonyms: Vec::new().into_boxed_slice(),
        relations: Vec::new().into_boxed_slice(),
        tags: Vec::new().into_boxed_slice(),
    }
}

fn catalog(entries: Vec<Anime>) -> Root {
    Root {
        license: License { name: "licence".to_string(), url: String::new() },
        repository: String::new(),
        last_update: "2024-01-01".to_string(),
        data: entries.into_boxed_slice(),
    }
}

fn page(total_pages: u64, urls: &[&str]) -> DubbedAnime {
    DubbedAnime { total_pages, anisearch_urls: urls.iter().map(|s| s.to_string()).collect() }
}

fn mal(id: u64) -> String {
    format!("https://myanimelist.net/anime/{id}")
}

fn fetch_page(run: &Reconciliation) -> (u64, u64) {
    match run.next_action() {
        Action::FetchListing { page, pause_seconds } => (page, pause_seconds),
        _ => panic!("the run does not ask for a page of the listing"),
    }
}

fn resolve(run: &Reconciliation) -> (String, u64) {
    match run.next_action() {
        Action::ResolveStatus { url, pause_seconds } => (url, pause_seconds),
        _ => panic!("the run does not ask for a status"),
    }
}

fn emit(run: &Reconciliation) -> (Vec<u64>, Vec<u64>) {
    match run.next_action() {
        Action::Emit(output) => (output.dubbed, output.incomplete),
        _ => panic!("the run does not give out lists"),
    }
}

/// Runs the listing with the given pages and the statuses in the order in
/// which the run asks for them, and returns the checkpoint and the final
/// lists.
fn run_through(
    root: &Root,
    pages: Vec<DubbedAnime>,
    statuses: &[(&str, Result<DubStatus, ()>)],
) -> ((Vec<u64>, Vec<u64>), (Vec<u64>, Vec<u64>)) {
    let mut run = Reconciliation::new(root);
    for listing in pages {
        fetch_page(&run);
        run.advance(Event::Listing(listing));
    }
    let checkpoint = emit(&run);
    run.advance(Event::Emitted);
    while let Action::ResolveStatus { url, .. } = run.next_action() {
        let status = statuses
            .iter()
            .find(|(known, _)| *known == url)
            .map(|(_, status)| *status)
            .unwrap_or(Ok(DubStatus::Complete));
        run.advance(Event::Status(status));
    }
    let last = emit(&run);
    run.advance(Event::Emitted);
    assert!(matches!(run.next_action(), Action::Finished));
    assert_eq!(run.stage(), Stage::Done);
    (checkpoint, last)
}

#[test]
fn quorum_of_three() {
    let id = mal(7);
    let root = catalog(vec![anime(&[id.as_str(), A, B, C])]);
    let mut index = get_anisearch_map(&root);
    let mut dubbed = IdSet::new();
    process_dubbed_page(&mut dubbed, &mut index, &page(1, &[A]));
    assert!(dubbed.to_vec().is_empty());
    process_dubbed_page(&mut dubbed, &mut index, &page(1, &[B, "https://anisearch.com/anime/9"]));
    assert!(dubbed.to_vec().is_empty());
    process_dubbed_page(&mut dubbed, &mut index, &page(1, &[C]));
    assert_eq!(dubbed.to_vec(), vec![7]);
    process_dubbed_page(&mut dubbed, &mut index, &page(1, &[A, B, C]));
    assert_eq!(dubbed.to_vec(), vec![7]);
}

#[test]
fn quorum_counts_each_sighting() {
    let id = mal(7);
    let root = catalog(vec![anime(&[id.as_str(), A, B])]);
    let mut index = get_anisearch_map(&root);
    let mut dubbed = IdSet::new();
    process_dubbed_page(&mut dubbed, &mut index, &page(1, &[A, A]));
    assert_eq!(dubbed.to_vec(), vec![7]);
}

#[test]
fn an_anime_with_a_bad_mal_address_is_left_out() {
    let root = catalog(vec![
        anime(&["https://myanimelist.net/anime/1", "https://myanimelist.net/anime/x", A]),
        anime(&["https://myanimelist.net/manga/2", B]),
        anime(&["https://kitsu.io/anime/3", C]),
        anime(&["https://myanimelist.net/anime/4", "https://myanimelist.net/anime/5", "https://anisearch.com/anime/4"]),
    ]);
    let mut index = get_anisearch_map(&root);
    assert!(index.ids_of(A).is_none());
    assert!(index.ids_of(B).is_none());
    assert!(index.ids_of(C).is_none());
    assert_eq!(index.ids_of("https://anisearch.com/anime/4"), Some(&vec![4, 5]));
    let mut dubbed = IdSet::new();
    process_dubbed_page(
        &mut dubbed,
        &mut index,
        &page(1, &[A, B, C, "https://anisearch.com/anime/4"]),
    );
    assert_eq!(dubbed.to_vec(), vec![4, 5]);
}

#[test]
fn catalog_addresses_are_brought_to_canonical_form_and_counted_once() {
    let id = mal(11);
    let root = catalog(vec![anime(&[
        id.as_str(),
        "https://anisearch.com/anime/1,some-title",
        "https://anisearch.com/anime/1",
        "https://anisearch.com/manga/5",
        "https://www.anisearch.com/anime/2",
    ])]);
    let mut index = get_anisearch_map(&root);
    assert_eq!(index.ids_of(A), Some(&vec![11]));
    assert!(index.ids_of("https://anisearch.com/anime/1,some-title").is_none());
    assert!(index.ids_of(B).is_none());
    let mut dubbed = IdSet::new();
    process_dubbed_page(&mut dubbed, &mut index, &page(1, &[A]));
    assert_eq!(dubbed.to_vec(), vec![11]);
}

#[test]
fn a_catalog_address_without_item_digits_is_passed_over() {
    let id = mal(11);
    let root = catalog(vec![anime(&[id.as_str(), "https://anisearch.com/anime/", A])]);
    let mut index = get_anisearch_map(&root);
    assert!(index.ids_of("https://anisearch.com/anime/").is_none());
    let mut dubbed = IdSet::new();
    process_dubbed_page(&mut dubbed, &mut index, &page(1, &[A]));
    assert_eq!(dubbed.to_vec(), vec![11]);
}

#[test]
fn an_anime_without_anisearch_address_is_never_dubbed() {
    let id = mal(11);
    let root = catalog(vec![anime(&[id.as_str()])]);
    let (checkpoint, last) = run_through(&root, vec![page(1, &[A, B])], &[]);
    assert_eq!(checkpoint, (vec![], vec![]));
    assert_eq!(last, (vec![], vec![]));
}

#[test]
fn a_shared_address_belongs_to_the_later_anime() {
    let first = mal(1);
    let second = mal(2);
    let root = catalog(vec![anime(&[first.as_str(), A]), anime(&[second.as_str(), A])]);
    let mut index = get_anisearch_map(&root);
    assert_eq!(index.ids_of(A), Some(&vec![2]));
    let mut dubbed = IdSet::new();
    process_dubbed_page(&mut dubbed, &mut index, &page(1, &[A]));
    assert_eq!(dubbed.to_vec(), vec![2]);
}

#[test]
fn end_to_end_scenario() {
    let id = mal(100);
    let root = catalog(vec![anime(&[id.as_str(), A, B])]);

    let mut index = get_anisearch_map(&root);
    let mut dubbed = IdSet::new();
    process_dubbed_page(&mut dubbed, &mut index, &page(2, &[A]));
    assert_eq!(dubbed.to_vec(), Vec::<u64>::new());
    process_dubbed_page(&mut dubbed, &mut index, &page(2, &[B]));
    assert!(dubbed.contains(100));

    let (checkpoint, last) = run_through(
        &root,
        vec![page(2, &[A]), page(2, &[B])],
        &[(A, Ok(DubStatus::Upcoming))],
    );
    assert_eq!(checkpoint, (vec![100], vec![]));
    assert_eq!(last, (vec![100], vec![100]));

    let (checkpoint, last) = run_through(
        &root,
        vec![page(2, &[A]), page(2, &[B])],
        &[(A, Ok(DubStatus::Upcoming)), (B, Ok(DubStatus::NeverReleased))],
    );
    assert_eq!(checkpoint, (vec![100], vec![]));
    assert_eq!(last, (vec![], vec![]));
}

#[test]
fn only_one_of_two_addresses_seen_is_not_dubbed() {
    let id = mal(100);
    let root = catalog(vec![anime(&[id.as_str(), A, B])]);
    let (checkpoint, last) =
        run_through(&root, vec![page(1, &[A])], &[(A, Ok(DubStatus::Incomplete))]);
    assert_eq!(checkpoint, (vec![], vec![]));
    assert_eq!(last, (vec![], vec![]));
}

#[test]
fn never_released_overrides_incomplete_and_complete() {
    let one = mal(1);
    let two = mal(2);
    let three = mal(3);
    let root = catalog(vec![
        anime(&[one.as_str(), A]),
        anime(&[two.as_str(), B]),
        anime(&[three.as_str(), one.as_str(), C]),
    ]);
    let (checkpoint, last) = run_through(
        &root,
        vec![page(1, &[C, B, A])],
        &[
            (A, Ok(DubStatus::Incomplete)),
            (B, Ok(DubStatus::Complete)),
            (C, Ok(DubStatus::NeverReleased)),
        ],
    );
    assert_eq!(checkpoint, (vec![1, 2, 3], vec![]));
    assert_eq!(last, (vec![2], vec![]));
}

#[test]
fn a_status_that_cannot_be_made_out_counts_as_incomplete() {
    let one = mal(1);
    let two = mal(2);
    let root = catalog(vec![anime(&[one.as_str(), A]), anime(&[two.as_str(), B])]);
    let (checkpoint, last) = run_through(
        &root,
        vec![page(1, &[A, B])],
        &[(A, Err(())), (B, Ok(DubStatus::Complete))],
    );
    assert_eq!(checkpoint, (vec![1, 2], vec![]));
    assert_eq!(last, (vec![1, 2], vec![1]));
}

#[test]
fn lists_come_out_ascending() {
    let sources: Vec<String> = [50, 7, 31, 7, 12].iter().map(|id| mal(*id)).collect();
    let root = catalog(vec![
        anime(&[sources[0].as_str(), sources[1].as_str(), A]),
        anime(&[sources[2].as_str(), sources[3].as_str(), B]),
        anime(&[sources[4].as_str(), C]),
    ]);
    let (checkpoint, last) = run_through(
        &root,
        vec![page(1, &[B, C, A])],
        &[(A, Ok(DubStatus::Upcoming)), (B, Err(())), (C, Ok(DubStatus::Complete))],
    );
    assert_eq!(checkpoint, (vec![7, 12, 31, 50], vec![]));
    assert_eq!(last, (vec![7, 12, 31, 50], vec![7, 31, 50]));
}

#[test]
fn the_run_asks_for_each_page_and_each_address_once() {
    let one = mal(1);
    let root = catalog(vec![anime(&[one.as_str(), A])]);
    let mut run = Reconciliation::new(&root);
    assert_eq!(run.stage(), Stage::Listing);
    assert_eq!(fetch_page(&run), (1, 0));
    run.advance(Event::Emitted);
    run.advance(Event::Status(Ok(DubStatus::Incomplete)));
    assert_eq!(fetch_page(&run), (1, 0));
    run.advance(Event::Listing(page(3, &[A, B])));
    assert_eq!(run.total_pages(), 3);
    assert_eq!(fetch_page(&run), (2, 1));
    run.advance(Event::Listing(page(99, &[B, C])));
    assert_eq!(run.total_pages(), 3);
    assert_eq!(fetch_page(&run), (3, 1));
    run.advance(Event::Listing(page(3, &[A])));
    assert_eq!(run.stage(), Stage::Checkpoint);
    assert_eq!(run.target_count(), 3);
    assert_eq!(emit(&run), (vec![1], vec![]));
    run.advance(Event::Listing(page(3, &[C])));
    run.advance(Event::Status(Ok(DubStatus::Incomplete)));
    assert_eq!(emit(&run), (vec![1], vec![]));
    run.advance(Event::Emitted);
    assert_eq!(run.stage(), Stage::Statuses);
    assert_eq!(resolve(&run), (A.to_string(), 1));
    run.advance(Event::Emitted);
    assert_eq!(resolve(&run), (A.to_string(), 1));
    run.advance(Event::Status(Ok(DubStatus::Incomplete)));
    assert_eq!(resolve(&run), (B.to_string(), 1));
    run.advance(Event::Status(Ok(DubStatus::NeverReleased)));
    assert_eq!(resolve(&run), (C.to_string(), 1));
    run.advance(Event::Status(Err(())));
    assert_eq!(emit(&run), (vec![1], vec![1]));
    run.advance(Event::Status(Ok(DubStatus::NeverReleased)));
    assert_eq!(emit(&run), (vec![1], vec![1]));
    run.advance(Event::Emitted);
    assert!(matches!(run.next_action(), Action::Finished));
    run.advance(Event::Emitted);
    assert!(matches!(run.next_action(), Action::Finished));
}

#[test]
fn a_listing_of_no_pages_ends_after_its_first_page() {
    let root = catalog(vec![]);
    let mut run = Reconciliation::new(&root);
    run.advance(Event::Listing(page(0, &[])));
    assert_eq!(emit(&run), (vec![], vec![]));
    run.advance(Event::Emitted);
    assert_eq!(emit(&run), (vec![], vec![]));
    run.advance(Event::Emitted);
    assert_eq!(run.stage(), Stage::Done);
}

#[test]
fn a_page_that_cannot_be_had_ends_the_run() {
    let one = mal(1);
    let root = catalog(vec![anime(&[one.as_str(), A])]);
    let mut run = Reconciliation::new(&root);
    run.advance(Event::Listing(page(2, &[A])));
    assert_eq!(fetch_page(&run), (2, 1));
    run.advance(Event::ListingFailed);
    assert_eq!(run.stage(), Stage::Failed);
    assert!(matches!(run.next_action(), Action::Abort));
    run.advance(Event::Listing(page(2, &[A])));
    run.advance(Event::Emitted);
    assert!(matches!(run.next_action(), Action::Abort));
}

#[test]
fn a_failure_after_the_listing_changes_nothing() {
    let one = mal(1);
    let root = catalog(vec![anime(&[one.as_str(), A])]);
    let mut run = Reconciliation::new(&root);
    run.advance(Event::Listing(page(1, &[A])));
    run.advance(Event::ListingFailed);
    assert_eq!(run.stage(), Stage::Checkpoint);
    assert_eq!(emit(&run), (vec![1], vec![]));
}
