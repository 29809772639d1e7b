//! The reconciliation run: from the catalog and the pages of aniSearch to
//! the lists of dubbed and incompletely dubbed MyAnimeList ids.
//!
//! The run is a state machine. Its owner asks for the next action, performs
//! it (a fetch, a write), and reports what came of it; every decision is
//! taken here.

use vstd::prelude::*;

use crate::anisearch::DubStatus;
use crate::anisearch::DubbedAnime;
use crate::anisearch::DubbedAnimeView;
use crate::database::Root;
use crate::ids::strictly_ascending;
use crate::ids::IdSet;
use crate::index::get_anisearch_map;
use crate::index::index_of_catalog;
use crate::index::observe_all;
use crate::index::process_dubbed_page;
use crate::index::ReferenceIndex;
use crate::index::ReferenceIndexView;
use crate::text::holds_text;
use crate::text::texts;

verus! {

/// The pause after a fetch, in seconds, that keeps the run from asking
/// aniSearch more than once a second.
pub const PAUSE_SECONDS: u64 = 1;

/// The two lists of MyAnimeList ids that a run gives out.
#[derive(Debug)]
pub struct Output {
    /// The ids of the anime that have a dub.
    pub dubbed: Vec<u64>,
    /// The ids among them whose dub is not complete.
    pub incomplete: Vec<u64>,
}

/// Where a run stands.
#[derive(Debug, Clone, Copy, PartialEq, Eq, Structural)]
pub enum Stage {
    /// Pages of the listing are being fetched.
    Listing,
    /// The listing is through; the dubbed ids wait to be written.
    Checkpoint,
    /// The dub status of each URL of the listing is being asked, and then
    /// the final lists wait to be written.
    Statuses,
    /// Nothing is left to do.
    Done,
    /// A page of the listing could not be had; the run is given up.
    Failed,
}

/// What the owner of a run is to do next.
pub enum Action {
    /// Fetch this page of the listing, report it, and then pause.
    FetchListing { page: u64, pause_seconds: u64 },
    /// Fetch the detail page at this URL, report its dub status or that
    /// there is none, and then pause.
    ResolveStatus { url: String, pause_seconds: u64 },
    /// Write these lists in place of any written before, and report that.
    Emit(Output),
    /// Stop: the run is through.
    Finished,
    /// Stop and report failure: the listing could not be read to its end,
    /// and a part of it is of no use.
    Abort,
}

/// What came of an action.
pub enum Event {
    /// The page of the listing that was asked for.
    Listing(DubbedAnime),
    /// The page of the listing that was asked for could not be had.
    ListingFailed,
    /// The dub status of the URL that was asked for, or that none could be
    /// made out.
    Status(Result<DubStatus, ()>),
    /// The lists were written.
    Emitted,
}

/// The URLs seen so far with those of one more page: each URL once, in the
/// order in which it was first seen.
pub open spec fn merged(targets: Seq<Seq<char>>, urls: Seq<Seq<char>>) -> Seq<Seq<char>>
    decreases urls.len(),
{
    if urls.len() == 0 {
        targets
    } else {
        let front = merged(targets, urls.drop_last());
        if front.contains(urls.last()) {
            front
        } else {
            front.push(urls.last())
        }
    }
}

/// A run as a value.
pub struct ReconciliationView {
    pub index: ReferenceIndexView,
    /// The ids of the groups that have been seen in full.
    pub dubbed: Set<u64>,
    /// The URLs that the listing has shown, each once.
    pub targets: Seq<Seq<char>>,
    /// The ids of the groups behind URLs whose dub is not known to be
    /// complete.
    pub incomplete: Set<u64>,
    /// The ids of the groups behind URLs whose dub was never released.
    pub never_released: Set<u64>,
    pub stage: Stage,
    /// The page of the listing that is fetched next.
    pub next_page: u64,
    /// The number of pages of the listing, as its first page gave it.
    pub total_pages: u64,
    /// The place in `targets` of the URL whose status is asked next.
    pub next_target: usize,
}

impl ReconciliationView {
    /// The dubbed ids that are given out in the end: a dub that was never
    /// released counts as no dub.
    pub open spec fn final_dubbed(self) -> Set<u64> {
        self.dubbed.difference(self.never_released)
    }

    /// The incomplete ids that are given out in the end: those of the final
    /// dubbed ids whose dub is not known to be complete.
    pub open spec fn final_incomplete(self) -> Set<u64> {
        self.incomplete.intersect(self.final_dubbed())
    }

    /// The run after a page of the listing came in.
    ///
    /// The URLs of the page count for their groups and join the URLs seen.
    /// The first page says how many pages there are; after the last of them
    /// the listing is through.
    pub open spec fn with_page(self, page: DubbedAnimeView) -> ReconciliationView {
        let observed = observe_all(self.index, self.dubbed, page.anisearch_urls);
        let total_pages = if self.next_page == 1 {
            page.total_pages
        } else {
            self.total_pages
        };
        ReconciliationView {
            index: observed.0,
            dubbed: observed.1,
            targets: merged(self.targets, page.anisearch_urls),
            stage: if self.next_page < total_pages {
                Stage::Listing
            } else {
                Stage::Checkpoint
            },
            next_page: if self.next_page < total_pages {
                (self.next_page + 1) as u64
            } else {
                self.next_page
            },
            total_pages,
            ..self
        }
    }

    /// The run after the status of the next URL came in.
    ///
    /// A complete dub changes no set. An incomplete or upcoming dub, and a
    /// status that could not be made out, put the ids of the URL's group
    /// among the incomplete ids; a dub that was never released puts them
    /// among the never released ones.
    pub open spec fn with_status(self, status: Result<DubStatus, ()>) -> ReconciliationView {
        let ids = self.index.group_ids(self.targets[self.next_target as int]);
        let next = ReconciliationView { next_target: (self.next_target + 1) as usize, ..self };
        match status {
            Ok(DubStatus::Complete) => next,
            Ok(DubStatus::NeverReleased) => ReconciliationView {
                never_released: self.never_released + ids,
                ..next
            },
            _ => ReconciliationView { incomplete: self.incomplete + ids, ..next },
        }
    }

    /// The run after an event. A page of the listing that cannot be had ends
    /// the run; an event that the run does not wait for changes nothing.
    pub open spec fn after(self, event: Event) -> ReconciliationView {
        match (self.stage, event) {
            (Stage::Listing, Event::Listing(page)) => self.with_page(page@),
            (Stage::Listing, Event::ListingFailed) => ReconciliationView {
                stage: Stage::Failed,
                ..self
            },
            (Stage::Checkpoint, Event::Emitted) => ReconciliationView {
                stage: Stage::Statuses,
                ..self
            },
            (Stage::Statuses, Event::Status(status)) => if self.next_target < self.targets.len() {
                self.with_status(status)
            } else {
                self
            },
            (Stage::Statuses, Event::Emitted) => if self.next_target < self.targets.len() {
                self
            } else {
                ReconciliationView { stage: Stage::Done, ..self }
            },
            _ => self,
        }
    }

    /// `output` holds the two sets, each as the ascending list of its ids.
    pub open spec fn lists(output: Output, dubbed: Set<u64>, incomplete: Set<u64>) -> bool {
        &&& strictly_ascending(output.dubbed@)
        &&& output.dubbed@.to_set() == dubbed
        &&& strictly_ascending(output.incomplete@)
        &&& output.incomplete@.to_set() == incomplete
    }

    /// `action` is what the run asks for next.
    ///
    /// The pages of the listing are asked for one by one, with a pause after
    /// each but the first. When the listing is through, the dubbed ids so
    /// far are given out with no incomplete ids. Then the status of each URL
    /// seen is asked for, with a pause after each, and at last the final
    /// lists are given out.
    pub open spec fn asks_for(self, action: Action) -> bool {
        match self.stage {
            Stage::Listing => action matches Action::FetchListing { page, pause_seconds }
                && page == self.next_page && pause_seconds == (if page == 1 {
                0
            } else {
                PAUSE_SECONDS
            }),
            Stage::Checkpoint => action matches Action::Emit(output) && Self::lists(
                output,
                self.dubbed,
                Set::empty(),
            ),
            Stage::Statuses => if self.next_target < self.targets.len() {
                action matches Action::ResolveStatus { url, pause_seconds } && url@
                    == self.targets[self.next_target as int] && pause_seconds == PAUSE_SECONDS
            } else {
                action matches Action::Emit(output) && Self::lists(
                    output,
                    self.final_dubbed(),
                    self.final_incomplete(),
                )
            },
            Stage::Done => action is Finished,
            Stage::Failed => action is Abort,
        }
    }
}

/// The run before its first action.
pub open spec fn start(catalog: Seq<Seq<Seq<char>>>) -> ReconciliationView {
    ReconciliationView {
        index: index_of_catalog(catalog),
        dubbed: Set::empty(),
        targets: Seq::empty(),
        incomplete: Set::empty(),
        never_released: Set::empty(),
        stage: Stage::Listing,
        next_page: 1,
        total_pages: 0,
        next_target: 0,
    }
}

/// Never released wins: an id of a dub that was never released is given out
/// neither as dubbed nor as incomplete, whatever else was found of it.
pub proof fn lemma_never_released_precedence(run: ReconciliationView, id: u64)
    requires
        run.never_released.contains(id),
    ensures
        !run.final_dubbed().contains(id),
        !run.final_incomplete().contains(id),
{
}

/// Whenever a run gives out lists, the incomplete ids are among the dubbed
/// ids.
pub proof fn lemma_incomplete_within_dubbed(run: ReconciliationView, output: Output)
    requires
        run.asks_for(Action::Emit(output)),
    ensures
        run.final_incomplete().subset_of(run.final_dubbed()),
        output.incomplete@.to_set().subset_of(output.dubbed@.to_set()),
{
}

/// What cannot be verified counts as incomplete: a status that could not be
/// made out does what an incomplete dub does. The ids of the URL's group
/// are then among the incomplete ids, and those of them that are dubbed and
/// not never released are given out as incomplete.
pub proof fn lemma_failure_counts_as_incomplete(run: ReconciliationView)
    ensures
        run.with_status(Err(())) == run.with_status(Ok(DubStatus::Incomplete)),
        run.index.group_ids(run.targets[run.next_target as int]).subset_of(
            run.with_status(Err(())).incomplete,
        ),
        run.index.group_ids(run.targets[run.next_target as int]).intersect(
            run.final_dubbed(),
        ).subset_of(run.with_status(Err(())).final_incomplete()),
{
}

/// A reconciliation run.
pub struct Reconciliation {
    index: ReferenceIndex,
    dubbed: IdSet,
    targets: Vec<String>,
    incomplete: IdSet,
    never_released: IdSet,
    stage: Stage,
    next_page: u64,
    total_pages: u64,
    next_target: usize,
}

impl View for Reconciliation {
    type V = ReconciliationView;

    closed spec fn view(&self) -> ReconciliationView {
        ReconciliationView {
            index: self.index@,
            dubbed: self.dubbed@,
            targets: texts(self.targets@),
            incomplete: self.incomplete@,
            never_released: self.never_released@,
            stage: self.stage,
            next_page: self.next_page,
            total_pages: self.total_pages,
            next_target: self.next_target,
        }
    }
}

/// Adds the URLs of a page to the URLs seen, each once.
fn merge_targets(targets: &mut Vec<String>, urls: &Vec<String>)
    ensures
        texts(final(targets)@) == merged(texts(old(targets)@), texts(urls@)),
{
    let mut i: usize = 0;
    while i < urls.len()
        invariant
            i <= urls.len(),
            texts(targets@) == merged(texts(old(targets)@), texts(urls@).take(i as int)),
        decreases urls.len() - i,
    {
        proof {
            assert(texts(urls@).take(i + 1).drop_last() =~= texts(urls@).take(i as int));
            assert(texts(urls@).take(i + 1).last() == urls@[i as int]@);
        }
        if !holds_text(targets, &urls[i]) {
            let ghost before = targets@;
            targets.push(urls[i].clone());
            assert(texts(targets@) =~= texts(before).push(urls@[i as int]@));
        }
        i = i + 1;
    }
    assert(texts(urls@).take(i as int) =~= texts(urls@));
}

impl Reconciliation {
    /// A run over a catalog, before its first action.
    pub fn new(root: &Root) -> (run: Reconciliation)
        ensures
            run@ == start(root.sources()),
    {
        let run = Reconciliation {
            index: get_anisearch_map(root),
            dubbed: IdSet::new(),
            targets: Vec::new(),
            incomplete: IdSet::new(),
            never_released: IdSet::new(),
            stage: Stage::Listing,
            next_page: 1,
            total_pages: 0,
            next_target: 0,
        };
        assert(texts(run.targets@) =~= Seq::<Seq<char>>::empty());
        run
    }

    /// Where the run stands.
    pub fn stage(&self) -> (stage: Stage)
        ensures
            stage == self@.stage,
    {
        self.stage
    }

    /// The number of pages of the listing, once its first page has come in.
    pub fn total_pages(&self) -> (total_pages: u64)
        ensures
            total_pages == self@.total_pages,
    {
        self.total_pages
    }

    /// The number of distinct URLs that the listing has shown.
    pub fn target_count(&self) -> (count: usize)
        ensures
            count == self@.targets.len(),
    {
        self.targets.len()
    }

    /// What the owner of the run is to do next.
    pub fn next_action(&self) -> (action: Action)
        ensures
            self@.asks_for(action),
    {
        match self.stage {
            Stage::Listing => Action::FetchListing {
                page: self.next_page,
                pause_seconds: if self.next_page == 1 {
                    0
                } else {
                    PAUSE_SECONDS
                },
            },
            Stage::Checkpoint => Action::Emit(
                Output { dubbed: self.dubbed.to_vec(), incomplete: IdSet::new().to_vec() },
            ),
            Stage::Statuses => {
                if self.next_target < self.targets.len() {
                    Action::ResolveStatus {
                        url: self.targets[self.next_target].clone(),
                        pause_seconds: PAUSE_SECONDS,
                    }
                } else {
                    let dubbed = self.dubbed.without(&self.never_released);
                    let incomplete = self.incomplete.common(&dubbed);
                    Action::Emit(
                        Output { dubbed: dubbed.to_vec(), incomplete: incomplete.to_vec() },
                    )
                }
            },
            Stage::Done => Action::Finished,
            Stage::Failed => Action::Abort,
        }
    }

    /// Takes in what came of the last action.
    pub fn advance(&mut self, event: Event)
        ensures
            final(self)@ == old(self)@.after(event),
    {
        match event {
            Event::Listing(page) => {
                if let Stage::Listing = self.stage {
                    process_dubbed_page(&mut self.dubbed, &mut self.index, &page);
                    merge_targets(&mut self.targets, &page.anisearch_urls);
                    if self.next_page == 1 {
                        self.total_pages = page.total_pages;
                    }
                    if self.next_page < self.total_pages {
                        self.next_page = self.next_page + 1;
                    } else {
                        self.stage = Stage::Checkpoint;
                    }
                }
            },
            Event::ListingFailed => {
                if let Stage::Listing = self.stage {
                    self.stage = Stage::Failed;
                }
            },
            Event::Status(status) => {
                if let Stage::Statuses = self.stage {
                    if self.next_target < self.targets.len() {
                        let ids = self.index.ids_of(self.targets[self.next_target].as_str());
                        proof {
                            let none = Set::<u64>::empty();
                            assert(self.incomplete@ + none =~= self.incomplete@);
                            assert(self.never_released@ + none =~= self.never_released@);
                        }
                        match status {
                            Ok(DubStatus::Complete) => {},
                            Ok(DubStatus::NeverReleased) => {
                                if let Some(ids) = ids {
                                    self.never_released.extend(ids);
                                }
                            },
                            _ => {
                                if let Some(ids) = ids {
                                    self.incomplete.extend(ids);
                                }
                            },
                        }
                        self.next_target = self.next_target + 1;
                    }
                }
            },
            Event::Emitted => {
                match self.stage {
                    Stage::Checkpoint => {
                        self.stage = Stage::Statuses;
                    },
                    Stage::Statuses => {
                        if self.next_target >= self.targets.len() {
                            self.stage = Stage::Done;
                        }
                    },
                    _ => {},
                }
            },
        }
    }
}

} // verus!
