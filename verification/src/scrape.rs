//! Going through the listings of a result page: which listing to open,
//! which offer to apply for, when to go back and when to stop.
//!
//! The browser is driven from outside. The loop there hands each outcome to
//! `Scraper::step` as an `Event` and performs the `Step` it gets back.
use vstd::prelude::*;

use crate::text::contains_string;
use crate::utils::{get_link, get_num_pages, get_price, listing_link, listing_price, page_count, PageCountError};
use crate::wg::{contains_wg, offer, offers_view, DetailTexts, DetailView, Wg, WgView};

verus! {

/// Why a listing was left without applying.
#[derive(Debug, Clone, Copy, PartialEq, Eq, Structural)]
pub enum SkipReason {
    /// Its link is among the already processed links.
    AlreadyProcessed,
    /// The browser could not open its link.
    LinkNotOpened,
    /// The detail page could not be read.
    InfoNotExtracted,
    /// An equal offer was already collected.
    Duplicate,
    /// The application could not be sent.
    NotApplied,
}

/// What the browsing loop reports.
#[derive(Debug)]
pub enum Event {
    /// The HTML of the next listing of the page.
    Listing(String),
    /// Whether the listing's link could be opened.
    LinkOpened(bool),
    /// The texts of the detail page, or `None` when they could not be read.
    InfoExtracted(Option<DetailTexts>),
    /// Whether the application was sent.
    ApplicationSent(bool),
    /// Whether the browser went back to the result list.
    BackedToList(bool),
}

/// What the browsing loop has to do next.
#[derive(Debug)]
pub enum Step {
    /// The listing has no price; the loop stops.
    MissingPrice,
    /// The listing has no link; the loop stops.
    MissingLink,
    /// Open this link and report `LinkOpened`.
    OpenLink(String),
    /// Read the detail page and report `InfoExtracted`.
    ExtractInfo,
    /// Send the application and report `ApplicationSent`.
    SendApplication,
    /// Go back to the result list and report `BackedToList`.
    BackToList,
    /// The listing is left out; go on with the next one.
    Skip(SkipReason),
    /// The listing is done; go on with the next one.
    NextListing,
    /// Going back failed; this page is over.
    EndPage,
}

/// Where the current listing stands.
#[derive(Debug)]
enum Phase {
    Idle,
    Opening { price: String, link: String },
    Extracting { price: String, link: String },
    Applying { wg: Wg },
    Returning,
}

/// The state of going through result pages: the links processed in earlier
/// runs, the offers applied for so far, and the current listing.
#[derive(Debug)]
pub struct Scraper {
    all_links: Vec<String>,
    data: Vec<Wg>,
    count: usize,
    page_start: usize,
    phase: Phase,
}

// ---------------------------------------------------------------------------
// Model
// ---------------------------------------------------------------------------

pub enum EventView {
    Listing(Seq<char>),
    LinkOpened(bool),
    InfoExtracted(Option<DetailView>),
    ApplicationSent(bool),
    BackedToList(bool),
}

pub enum StepView {
    MissingPrice,
    MissingLink,
    OpenLink(Seq<char>),
    ExtractInfo,
    SendApplication,
    BackToList,
    Skip(SkipReason),
    NextListing,
    EndPage,
}

pub enum PhaseView {
    /// Waiting for the next listing.
    Idle,
    /// The link of the listing with this price and link is being opened.
    Opening { price: Seq<char>, link: Seq<char> },
    /// The detail page of this listing is being read.
    Extracting { price: Seq<char>, link: Seq<char> },
    /// The application for this offer is being sent.
    Applying { wg: WgView },
    /// The browser is going back to the result list.
    Returning,
}

/// The content of a `Scraper`.
pub struct ScraperView {
    /// Links processed in earlier runs.
    pub all_links: Seq<Seq<char>>,
    /// Offers applied for, in order.
    pub data: Seq<WgView>,
    /// One more than the number of applications sent on the current page.
    pub count: nat,
    /// How many offers had been collected when the current page began.
    pub page_start: nat,
    /// The current listing.
    pub phase: PhaseView,
}

impl View for Event {
    type V = EventView;

    open spec fn view(&self) -> EventView {
        match self {
            Event::Listing(h) => EventView::Listing(h@),
            Event::LinkOpened(b) => EventView::LinkOpened(*b),
            Event::InfoExtracted(d) => EventView::InfoExtracted(
                match d {
                    Some(t) => Some(t@),
                    None => None,
                },
            ),
            Event::ApplicationSent(b) => EventView::ApplicationSent(*b),
            Event::BackedToList(b) => EventView::BackedToList(*b),
        }
    }
}

impl View for Step {
    type V = StepView;

    open spec fn view(&self) -> StepView {
        match self {
            Step::MissingPrice => StepView::MissingPrice,
            Step::MissingLink => StepView::MissingLink,
            Step::OpenLink(l) => StepView::OpenLink(l@),
            Step::ExtractInfo => StepView::ExtractInfo,
            Step::SendApplication => StepView::SendApplication,
            Step::BackToList => StepView::BackToList,
            Step::Skip(r) => StepView::Skip(*r),
            Step::NextListing => StepView::NextListing,
            Step::EndPage => StepView::EndPage,
        }
    }
}

impl View for Phase {
    type V = PhaseView;

    closed spec fn view(&self) -> PhaseView {
        match self {
            Phase::Idle => PhaseView::Idle,
            Phase::Opening { price, link } => PhaseView::Opening { price: price@, link: link@ },
            Phase::Extracting { price, link } => PhaseView::Extracting { price: price@, link: link@ },
            Phase::Applying { wg } => PhaseView::Applying { wg: wg@ },
            Phase::Returning => PhaseView::Returning,
        }
    }
}

impl View for Scraper {
    type V = ScraperView;

    closed spec fn view(&self) -> ScraperView {
        ScraperView {
            all_links: self.all_links.deep_view(),
            data: offers_view(self.data@),
            count: self.count as nat,
            page_start: self.page_start as nat,
            phase: self.phase@,
        }
    }
}

/// Whether the loop may report `ev` while the current listing is in `phase`.
pub open spec fn accepts(phase: PhaseView, ev: EventView) -> bool {
    match (phase, ev) {
        (PhaseView::Idle, EventView::Listing(_)) => true,
        (PhaseView::Opening { .. }, EventView::LinkOpened(_)) => true,
        (PhaseView::Extracting { .. }, EventView::InfoExtracted(_)) => true,
        (PhaseView::Applying { .. }, EventView::ApplicationSent(_)) => true,
        (PhaseView::Returning, EventView::BackedToList(_)) => true,
        _ => false,
    }
}

impl ScraperView {
    /// `self` with the current listing in `phase`.
    pub open spec fn with_phase(self, phase: PhaseView) -> ScraperView {
        ScraperView { phase: phase, ..self }
    }

    /// What the state has to satisfy at all times:
    /// - the page counter is one more than the number of offers collected
    ///   since the page began;
    /// - no offer is collected twice;
    /// - no collected offer, nor the listing being worked on, has a link
    ///   among the already processed ones;
    /// - an offer being applied for is not collected yet.
    pub open spec fn inv(self) -> bool {
        &&& self.page_start <= self.data.len()
        &&& self.count == self.data.len() - self.page_start + 1
        &&& forall|i: int, j: int|
            0 <= i < j < self.data.len() ==> #[trigger] self.data[i] != #[trigger] self.data[j]
        &&& forall|i: int|
            0 <= i < self.data.len() ==> !self.all_links.contains(#[trigger] self.data[i].link)
        &&& match self.phase {
            PhaseView::Opening { price, link } => !self.all_links.contains(link),
            PhaseView::Extracting { price, link } => !self.all_links.contains(link),
            PhaseView::Applying { wg } => !self.all_links.contains(wg.link) && !self.data.contains(wg),
            _ => true,
        }
    }
}

/// What a listing with the given price and link (`None` where the listing
/// has none) leads to in state `s`.
pub open spec fn listing_transition(s: ScraperView, price: Option<Seq<char>>, link: Option<Seq<char>>) -> (
    ScraperView,
    StepView,
) {
    match price {
        None => (s, StepView::MissingPrice),
        Some(price) => match link {
            None => (s, StepView::MissingLink),
            Some(link) => if s.all_links.contains(link) {
                (s, StepView::Skip(SkipReason::AlreadyProcessed))
            } else {
                (s.with_phase(PhaseView::Opening { price, link }), StepView::OpenLink(link))
            },
        },
    }
}

/// The decision table: the next state and what the loop has to do, when
/// `ev` comes in state `s`.
///
/// - A listing is opened unless its link was processed before; one without
///   price or link stops the loop.
/// - A failure to open the link, to read the detail page or to send the
///   application skips the listing.
/// - An offer equal to one already collected is skipped.
/// - After sending, the offer is collected, the page counter goes up and
///   the browser goes back; a failure to go back ends the page.
pub open spec fn transition(s: ScraperView, ev: EventView) -> (ScraperView, StepView) {
    match (s.phase, ev) {
        (PhaseView::Idle, EventView::Listing(html)) => listing_transition(
            s,
            listing_price(html),
            listing_link(html),
        ),
        (PhaseView::Opening { price, link }, EventView::LinkOpened(ok)) => if ok {
            (s.with_phase(PhaseView::Extracting { price, link }), StepView::ExtractInfo)
        } else {
            (s.with_phase(PhaseView::Idle), StepView::Skip(SkipReason::LinkNotOpened))
        },
        (PhaseView::Extracting { price, link }, EventView::InfoExtracted(d)) => match d {
            None => (s.with_phase(PhaseView::Idle), StepView::Skip(SkipReason::InfoNotExtracted)),
            Some(details) => {
                let wg = offer(price, link, details);
                if s.data.contains(wg) {
                    (s.with_phase(PhaseView::Idle), StepView::Skip(SkipReason::Duplicate))
                } else {
                    (s.with_phase(PhaseView::Applying { wg }), StepView::SendApplication)
                }
            },
        },
        (PhaseView::Applying { wg }, EventView::ApplicationSent(ok)) => if ok {
            (
                ScraperView {
                    data: s.data.push(wg),
                    count: s.count + 1,
                    phase: PhaseView::Returning,
                    ..s
                },
                StepView::BackToList,
            )
        } else {
            (s.with_phase(PhaseView::Idle), StepView::Skip(SkipReason::NotApplied))
        },
        (PhaseView::Returning, EventView::BackedToList(ok)) => if ok {
            (s.with_phase(PhaseView::Idle), StepView::NextListing)
        } else {
            (s.with_phase(PhaseView::Idle), StepView::EndPage)
        },
        _ => (s, StepView::EndPage),
    }
}

/// The decisions taken for each report, stated case by case:
/// - a listing without price or link stops the loop and changes nothing;
/// - a listing whose link was processed before is skipped, else its link is
///   opened;
/// - a link that cannot be opened, a detail page that cannot be read and an
///   application that cannot be sent each skip the listing;
/// - the extracted offer is skipped as a duplicate exactly when an offer
///   equal to it in every field was collected before, else it is applied
///   for;
/// - a sent application collects that offer and counts it;
/// - after going back the next listing comes, or the page ends.
/// The processed links never change.
pub proof fn lemma_transition_decisions(
    s: ScraperView,
    ev: EventView,
    html: Seq<char>,
    price: Seq<char>,
    link: Seq<char>,
    d: DetailView,
    wg: WgView,
)
    ensures
        transition(s, ev).0.all_links == s.all_links,
        s.phase is Idle && listing_price(html) is None ==> transition(s, EventView::Listing(html)) == (
            s,
            StepView::MissingPrice,
        ),
        s.phase is Idle && listing_price(html) is Some && listing_link(html) is None ==> transition(
            s,
            EventView::Listing(html),
        ) == (s, StepView::MissingLink),
        s.phase is Idle && listing_price(html) is Some && listing_link(html) == Some(link)
            && s.all_links.contains(link) ==> transition(s, EventView::Listing(html)) == (
            s,
            StepView::Skip(SkipReason::AlreadyProcessed),
        ),
        s.phase is Idle && listing_price(html) == Some(price) && listing_link(html) == Some(link)
            && !s.all_links.contains(link) ==> transition(s, EventView::Listing(html)) == (
            ScraperView { phase: PhaseView::Opening { price, link }, ..s },
            StepView::OpenLink(link),
        ),
        s.phase == (PhaseView::Opening { price, link }) ==> transition(s, EventView::LinkOpened(true))
            == (ScraperView { phase: PhaseView::Extracting { price, link }, ..s }, StepView::ExtractInfo),
        s.phase is Opening ==> transition(s, EventView::LinkOpened(false)) == (
            ScraperView { phase: PhaseView::Idle, ..s },
            StepView::Skip(SkipReason::LinkNotOpened),
        ),
        s.phase is Extracting ==> transition(s, EventView::InfoExtracted(None)) == (
            ScraperView { phase: PhaseView::Idle, ..s },
            StepView::Skip(SkipReason::InfoNotExtracted),
        ),
        s.phase == (PhaseView::Extracting { price, link }) && (exists|i: int|
            0 <= i < s.data.len() && s.data[i] == offer(price, link, d)) ==> transition(
            s,
            EventView::InfoExtracted(Some(d)),
        ) == (ScraperView { phase: PhaseView::Idle, ..s }, StepView::Skip(SkipReason::Duplicate)),
        s.phase == (PhaseView::Extracting { price, link }) && !(exists|i: int|
            0 <= i < s.data.len() && s.data[i] == offer(price, link, d)) ==> transition(
            s,
            EventView::InfoExtracted(Some(d)),
        ) == (
            ScraperView { phase: PhaseView::Applying { wg: offer(price, link, d) }, ..s },
            StepView::SendApplication,
        ),
        s.phase == (PhaseView::Applying { wg }) ==> transition(s, EventView::ApplicationSent(true))
            == (
            ScraperView { data: s.data.push(wg), count: s.count + 1, phase: PhaseView::Returning, ..s },
            StepView::BackToList,
        ),
        s.phase is Applying ==> transition(s, EventView::ApplicationSent(false)) == (
            ScraperView { phase: PhaseView::Idle, ..s },
            StepView::Skip(SkipReason::NotApplied),
        ),
        s.phase is Returning ==> transition(s, EventView::BackedToList(true)) == (
            ScraperView { phase: PhaseView::Idle, ..s },
            StepView::NextListing,
        ),
        s.phase is Returning ==> transition(s, EventView::BackedToList(false)) == (
            ScraperView { phase: PhaseView::Idle, ..s },
            StepView::EndPage,
        ),
{
    let w = offer(price, link, d);
    if exists|i: int| 0 <= i < s.data.len() && s.data[i] == w {
        let i = choose|i: int| 0 <= i < s.data.len() && s.data[i] == w;
        assert(s.data.contains(w));
    }
}

/// Whether `ev`, reported in state `s`, is a sent application.
pub open spec fn sends_application(s: ScraperView, ev: EventView) -> bool {
    s.phase is Applying && ev == EventView::ApplicationSent(true)
}

/// Every step keeps the invariant and the processed links, only appends to
/// the collected offers, and appends one offer exactly when an application
/// was sent.
pub proof fn lemma_transition_keeps_inv(s: ScraperView, ev: EventView)
    requires
        s.inv(),
    ensures
        transition(s, ev).0.inv(),
        transition(s, ev).0.all_links == s.all_links,
        s.data.is_prefix_of(transition(s, ev).0.data),
        transition(s, ev).0.data.len() == s.data.len() + (if sends_application(s, ev) {
            1int
        } else {
            0int
        }),
{
    let t = transition(s, ev).0;
    if sends_application(s, ev) {
        let wg = s.phase->Applying_wg;
        assert(t.data == s.data.push(wg));
        assert forall|i: int, j: int| 0 <= i < j < t.data.len() implies #[trigger] t.data[i]
            != #[trigger] t.data[j] by {
            if j == t.data.len() - 1 {
                assert(s.data.contains(s.data[i]));
            }
        }
        assert forall|i: int| 0 <= i < t.data.len() implies !t.all_links.contains(
            #[trigger] t.data[i].link,
        ) by {
            if i < s.data.len() {
                assert(t.data[i] == s.data[i]);
            }
        }
    } else {
        assert(t.data == s.data);
    }
}

/// The state after the loop reported `evs`, one after the other, from `s`.
pub open spec fn run(s: ScraperView, evs: Seq<EventView>) -> ScraperView
    decreases evs.len(),
{
    if evs.len() == 0 {
        s
    } else {
        transition(run(s, evs.drop_last()), evs.last()).0
    }
}

/// How many of the events `evs`, reported from `s`, are sent applications.
pub open spec fn applications_sent(s: ScraperView, evs: Seq<EventView>) -> nat
    decreases evs.len(),
{
    if evs.len() == 0 {
        0
    } else {
        applications_sent(s, evs.drop_last()) + if sends_application(
            run(s, evs.drop_last()),
            evs.last(),
        ) {
            1nat
        } else {
            0nat
        }
    }
}

/// Over any run of reports (a whole page, or several): the state keeps its
/// invariant, so the collected offers stay free of duplicates and of
/// already processed links; the offers collected before stay first; and
/// exactly one offer is added per sent application.
pub proof fn lemma_run_keeps_inv(s: ScraperView, evs: Seq<EventView>)
    requires
        s.inv(),
    ensures
        run(s, evs).inv(),
        run(s, evs).all_links == s.all_links,
        s.data.is_prefix_of(run(s, evs).data),
        run(s, evs).data.len() == s.data.len() + applications_sent(s, evs),
    decreases evs.len(),
{
    if evs.len() > 0 {
        lemma_run_keeps_inv(s, evs.drop_last());
        let m = run(s, evs.drop_last());
        lemma_transition_keeps_inv(m, evs.last());
        assert(s.data.is_prefix_of(run(s, evs).data)) by {
            assert forall|i: int| 0 <= i < s.data.len() implies s.data[i] == run(s, evs).data[i] by {
                assert(m.data[i] == s.data[i]);
            }
        }
    }
}

/// An offer recorded in a checkpoint is not applied for again: when every
/// link of the checkpointed offers `saved` is among the processed links of
/// a state (as the links read back from the checkpoint files are), no offer
/// collected in that state has the link of a checkpointed offer.
pub proof fn lemma_checkpointed_offers_not_reapplied(s: ScraperView, saved: Seq<WgView>)
    requires
        s.inv(),
        forall|k: int| 0 <= k < saved.len() ==> s.all_links.contains(#[trigger] saved[k].link),
    ensures
        forall|i: int, k: int|
            0 <= i < s.data.len() && 0 <= k < saved.len() ==> #[trigger] s.data[i].link
                != #[trigger] saved[k].link,
{
    assert forall|i: int, k: int|
        0 <= i < s.data.len() && 0 <= k < saved.len() implies #[trigger] s.data[i].link
        != #[trigger] saved[k].link by {
        assert(!s.all_links.contains(s.data[i].link));
        assert(s.all_links.contains(saved[k].link));
    }
}

// ---------------------------------------------------------------------------
// Implementation
// ---------------------------------------------------------------------------

/// The number of result pages to go through, given the text of the page
/// counter if the result page shows one: the count it shows, or a single
/// page when there is no counter.
pub fn page_total(counter: Option<&str>) -> (r: Result<usize, PageCountError>)
    ensures
        counter is None ==> r == Ok::<usize, PageCountError>(1),
        counter matches Some(c) ==> r == page_count(c@),
{
    match counter {
        Some(c) => get_num_pages(c),
        None => Ok(1),
    }
}

impl Scraper {
    /// A fresh state: nothing collected, `all_links` processed before, at
    /// the start of a page.
    pub fn new(all_links: Vec<String>) -> (r: Scraper)
        ensures
            r@.all_links == all_links.deep_view(),
            r@.data == Seq::<WgView>::empty(),
            r@.count == 1,
            r@.page_start == 0,
            r@.phase == PhaseView::Idle,
            r@.inv(),
    {
        let r = Scraper { all_links, data: Vec::new(), count: 1, page_start: 0, phase: Phase::Idle };
        assert(r@.data =~= Seq::<WgView>::empty());
        r
    }

    /// Starts a new result page: the page counter is back to 1, the
    /// collected offers stay.
    pub fn begin_page(&mut self)
        requires
            old(self)@.inv(),
        ensures
            final(self)@.all_links == old(self)@.all_links,
            final(self)@.data == old(self)@.data,
            final(self)@.count == 1,
            final(self)@.page_start == old(self)@.data.len(),
            final(self)@.phase == PhaseView::Idle,
            final(self)@.inv(),
    {
        self.count = 1;
        self.page_start = self.data.len();
        self.phase = Phase::Idle;
    }

    /// The offers collected so far.
    pub fn data(&self) -> (r: &Vec<Wg>)
        ensures
            offers_view(r@) == self@.data,
    {
        &self.data
    }

    /// The page counter: one more than the applications sent on this page.
    pub fn count(&self) -> (r: usize)
        ensures
            r == self@.count,
    {
        self.count
    }

    /// The collected offers, giving up the state.
    pub fn into_data(self) -> (r: Vec<Wg>)
        ensures
            offers_view(r@) == self@.data,
    {
        self.data
    }

    /// Whether `ev` is what the loop may report now.
    pub fn accepts(&self, ev: &Event) -> (r: bool)
        ensures
            r == accepts(self@.phase, ev@),
    {
        match (&self.phase, ev) {
            (Phase::Idle, Event::Listing(_)) => true,
            (Phase::Opening { .. }, Event::LinkOpened(_)) => true,
            (Phase::Extracting { .. }, Event::InfoExtracted(_)) => true,
            (Phase::Applying { .. }, Event::ApplicationSent(_)) => true,
            (Phase::Returning, Event::BackedToList(_)) => true,
            _ => false,
        }
    }

    /// Takes in a listing of the page, by its price and link (`None` where
    /// the listing has none), and says what to do with it, following
    /// `listing_transition`.
    pub fn step_listing(&mut self, price: Option<String>, link: Option<String>) -> (r: Step)
        requires
            old(self)@.inv(),
            old(self)@.phase == PhaseView::Idle,
        ensures
            (final(self)@, r@) == listing_transition(old(self)@, price.deep_view(), link.deep_view()),
            final(self)@.inv(),
    {
        let price = match price {
            Some(p) => p,
            None => {
                return Step::MissingPrice;
            },
        };
        let link = match link {
            Some(l) => l,
            None => {
                return Step::MissingLink;
            },
        };
        if contains_string(&self.all_links, &link) {
            return Step::Skip(SkipReason::AlreadyProcessed);
        }
        let out = link.clone();
        self.phase = Phase::Opening { price, link };
        Step::OpenLink(out)
    }

    /// Takes in what the browsing loop reports and says what it has to do
    /// next, following `transition`. The invariant is kept and collected
    /// offers are never dropped or reordered.
    pub fn step(&mut self, ev: Event) -> (r: Step)
        requires
            old(self)@.inv(),
            accepts(old(self)@.phase, ev@),
            old(self)@.data.len() + 1 < usize::MAX,
        ensures
            (final(self)@, r@) == transition(old(self)@, ev@),
            final(self)@.inv(),
            final(self)@.all_links == old(self)@.all_links,
            old(self)@.data.is_prefix_of(final(self)@.data),
    {
        let ghost s0 = self@;
        let mut phase = Phase::Idle;
        std::mem::swap(&mut phase, &mut self.phase);
        assert(self@ == s0.with_phase(PhaseView::Idle));
        match (phase, ev) {
            (Phase::Idle, Event::Listing(html)) => {
                let price = get_price(html.as_str());
                let link = get_link(html.as_str());
                self.step_listing(price, link)
            },
            (Phase::Opening { price, link }, Event::LinkOpened(ok)) => {
                if ok {
                    self.phase = Phase::Extracting { price, link };
                    Step::ExtractInfo
                } else {
                    Step::Skip(SkipReason::LinkNotOpened)
                }
            },
            (Phase::Extracting { price, link }, Event::InfoExtracted(d)) => {
                match d {
                    None => Step::Skip(SkipReason::InfoNotExtracted),
                    Some(details) => {
                        let wg = Wg::extract_info(&price, &link, &details);
                        if contains_wg(&self.data, &wg) {
                            Step::Skip(SkipReason::Duplicate)
                        } else {
                            self.phase = Phase::Applying { wg };
                            Step::SendApplication
                        }
                    },
                }
            },
            (Phase::Applying { wg }, Event::ApplicationSent(ok)) => {
                if ok {
                    let ghost d0 = offers_view(self.data@);
                    self.data.push(wg);
                    assert(offers_view(self.data@) =~= d0.push(wg@));
                    self.count = self.count + 1;
                    self.phase = Phase::Returning;
                    proof {
                        let d = offers_view(self.data@);
                        assert forall|i: int, j: int| 0 <= i < j < d.len() implies #[trigger] d[i]
                            != #[trigger] d[j] by {
                            if j == d.len() - 1 {
                                assert(d0.contains(d0[i]));
                            }
                        }
                        assert(d0.is_prefix_of(d));
                    }
                    Step::BackToList
                } else {
                    Step::Skip(SkipReason::NotApplied)
                }
            },
            (Phase::Returning, Event::BackedToList(ok)) => {
                if ok {
                    Step::NextListing
                } else {
                    Step::EndPage
                }
            },
            (p, _) => {
                self.phase = p;
                Step::EndPage
            },
        }
    }
}

} // verus!
