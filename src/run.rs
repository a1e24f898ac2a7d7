//! One whole run: the artist lookup, the paging of the rest of the catalog, then one download
//! per track of the catalog, in catalog order.
//!
//! The caller performs each request that a `RunStep` names and hands the result back. A lookup
//! or page failure ends the run; a download failure ends that track only, and every track gets
//! exactly one outcome.
use vstd::prelude::*;
use crate::downloader::{
    Download, DownloadError, DownloadOutcome, DownloadResult, DownloadState, DownloadStep,
    ProbeEvent, on_event, start_state,
};
use crate::locator::{MediaConfig, MediaConfigView, candidate_urls};
use crate::pager::{Crawl, CrawlError, CrawlState, CrawlStep, advance, after_page};
use crate::naming::{first_free_name, free_name, take_name};
use crate::payload::{Payload, page_payload};
use crate::track::{Page, Track, Uploads};

verus! {

/// The tracks that the outcomes are about, in order.
pub open spec fn tracks_of(outcomes: Seq<DownloadOutcome>) -> Seq<Track> {
    outcomes.map_values(|o: DownloadOutcome| o.track)
}

/// A run that waits for a catalog page.
pub struct Paging {
    pub media: MediaConfig,
    pub crawl: Crawl,
}

/// A run that downloads `current`, with `outcomes` for the tracks before it and `rest` after it.
pub struct Downloading {
    pub media: MediaConfig,
    pub current: Download,
    pub rest: Vec<Track>,
    pub outcomes: Vec<DownloadOutcome>,
    /// The files written so far, one per saved track.
    pub names: Vec<String>,
}

/// What a run asks for next.
pub enum RunStep {
    /// Request the page that `Paging::request` describes, then `resume`.
    Fetch(Paging),
    /// Request the current download's URL, then `step` with what was seen.
    Probe(Downloading),
    /// Save the body just received for the current track, then `step` with what was seen.
    Save(Downloading),
    /// One outcome per track of the catalog, in catalog order.
    Finished(Vec<DownloadOutcome>),
    /// The lookup or a page fetch failed.
    Failed(CrawlError),
}

impl Downloading {
    pub open spec fn wf(&self) -> bool {
        self.current.wf()
    }

    /// Every track of the catalog: those with an outcome, the current one, those still to come.
    pub open spec fn accounts(&self) -> Seq<Track> {
        tracks_of(self.outcomes@) + seq![self.current.track] + self.rest@
    }

    /// The name of the file that the current track is saved to.
    pub open spec fn destination_name(&self) -> Seq<char> {
        first_free_name(self.current.track.name@, self.media.format@, self.names.deep_view())
    }

    /// The files written once the current download ends with `result`.
    pub open spec fn names_after(&self, result: DownloadResult) -> Seq<Seq<char>> {
        match result {
            DownloadResult::Success(_) => self.names.deep_view().push(self.destination_name()),
            DownloadResult::Failure(_) => self.names.deep_view(),
        }
    }

    /// The file that the current track is saved to: its display name with the format's
    /// extension, numbered when an earlier track of the run already took that name.
    pub fn destination(&self) -> (r: String)
        ensures
            r@ == self.destination_name(),
    {
        free_name(&self.current.track.name, &self.media.format, &self.names)
    }

    /// The URL to request.
    pub fn url(&self) -> (r: &String)
        requires
            self.wf(),
        ensures
            r@ == self.current.urls.deep_view()[self.current.next as int],
    {
        self.current.url()
    }

    /// Takes what the caller saw after the last probe or save of the current track. When that
    /// download finishes, its outcome is recorded and the next tracks are started.
    pub fn step(self, event: ProbeEvent) -> (r: RunStep)
        requires
            self.wf(),
        ensures
            r.wf(),
            r.accounts() == self.accounts(),
            r is Save <==> event == ProbeEvent::Answered(200),
            match on_event(self.current.state(), event) {
                DownloadState::Trying { .. } => {
                    &&& (r is Probe || r is Save)
                    &&& r.downloading().current.state() == on_event(self.current.state(), event)
                    &&& r.downloading().rest@ == self.rest@
                    &&& r.downloading().outcomes@ == self.outcomes@
                    &&& r.downloading().media@ == self.media@
                    &&& r.downloading().names.deep_view() == self.names.deep_view()
                },
                DownloadState::Finished { result } => started(
                    r,
                    self.media@,
                    self.outcomes@.push(DownloadOutcome { track: self.current.track, result }),
                    self.rest@,
                    self.names_after(result),
                ),
            },
    {
        let destination = self.destination();
        let Downloading { media, current, rest, outcomes, names } = self;
        let ghost track = current.track;
        match current.step(event) {
            DownloadStep::Probe(d) => RunStep::Probe(
                Downloading { media, current: d, rest, outcomes, names },
            ),
            DownloadStep::Save(d) => RunStep::Save(
                Downloading { media, current: d, rest, outcomes, names },
            ),
            DownloadStep::Finished(o) => {
                let mut names = names;
                match &o.result {
                    DownloadResult::Success(_) => take_name(&mut names, destination),
                    DownloadResult::Failure(_) => {},
                }
                let ghost before = outcomes@;
                let mut outcomes = outcomes;
                outcomes.push(o);
                proof {
                    assert(tracks_of(outcomes@) =~= tracks_of(before) + seq![track]);
                }
                start_downloads(media, rest, outcomes, names)
            },
        }
    }
}

impl RunStep {
    pub open spec fn wf(&self) -> bool {
        match self {
            RunStep::Probe(d) => d.wf(),
            RunStep::Save(d) => d.wf(),
            _ => true,
        }
    }

    /// The download in progress, for `Probe` and `Save`.
    pub open spec fn downloading(&self) -> Downloading
        recommends
            self is Probe || self is Save,
    {
        match self {
            RunStep::Probe(d) => *d,
            RunStep::Save(d) => *d,
            _ => arbitrary(),
        }
    }

    /// The tracks of the catalog, once the download stage is reached.
    pub open spec fn accounts(&self) -> Seq<Track> {
        match self {
            RunStep::Probe(d) => d.accounts(),
            RunStep::Save(d) => d.accounts(),
            RunStep::Finished(outcomes) => tracks_of(outcomes@),
            _ => Seq::empty(),
        }
    }

    /// The outcomes recorded so far.
    pub open spec fn recorded(&self) -> Seq<DownloadOutcome> {
        match self {
            RunStep::Probe(d) => d.outcomes@,
            RunStep::Save(d) => d.outcomes@,
            RunStep::Finished(outcomes) => outcomes@,
            _ => Seq::empty(),
        }
    }
}

/// `r` follows from starting the downloads of `tracks`, after the outcomes `before`: every
/// track is accounted for in order, the tracks that name no media fail at once without a probe,
/// and the first one that has candidates is being probed at its first shard.
pub open spec fn started(
    r: RunStep,
    media: MediaConfigView,
    before: Seq<DownloadOutcome>,
    tracks: Seq<Track>,
    names: Seq<Seq<char>>,
) -> bool {
    &&& (r is Probe || r is Finished)
    &&& r.wf()
    &&& r.accounts() == tracks_of(before) + tracks
    &&& before.len() <= r.recorded().len()
    &&& r.recorded().subrange(0, before.len() as int) == before
    &&& forall|i: int|
        before.len() <= i < r.recorded().len() ==> {
            &&& (#[trigger] r.recorded()[i]).result == DownloadResult::Failure(
                DownloadError::NoMedia,
            )
            &&& candidate_urls(media, r.recorded()[i].track.preview_url@).len() == 0
        }
    &&& r is Probe ==> {
        &&& r.downloading().current.state() == start_state(
            media,
            r.downloading().current.track.preview_url@,
        )
        &&& r.downloading().media@ == media
        &&& r.downloading().names.deep_view() == names
    }
}

/// `r` follows from a crawl that reached state `s` on behalf of artist `artist`.
pub open spec fn follows_crawl(
    r: RunStep,
    media: MediaConfigView,
    s: CrawlState,
    artist: Seq<char>,
) -> bool {
    match s {
        CrawlState::Awaiting { .. } => r matches RunStep::Fetch(p) && p.crawl.state() == s
            && p.crawl.artist_id@ == artist && p.media@ == media,
        CrawlState::Complete { tracks } => started(r, media, Seq::empty(), tracks, Seq::empty()),
        CrawlState::Aborted { error } => r == RunStep::Failed(error),
    }
}

/// Starts the downloads of `tracks`, in order, after `outcomes`.
fn start_downloads(
    media: MediaConfig,
    tracks: Vec<Track>,
    done: Vec<DownloadOutcome>,
    names: Vec<String>,
) -> (r: RunStep)
    ensures
        started(r, media@, done@, tracks@, names.deep_view()),
{
    let ghost before = done@;
    let mut rest = tracks;
    let mut outcomes = done;
    while rest.len() > 0
        invariant
            before == done@,
            tracks_of(outcomes@) + rest@ == tracks_of(before) + tracks@,
            before.len() <= outcomes@.len(),
            outcomes@.subrange(0, before.len() as int) == before,
            forall|i: int|
                before.len() <= i < outcomes@.len() ==> {
                    &&& (#[trigger] outcomes@[i]).result == DownloadResult::Failure(
                        DownloadError::NoMedia,
                    )
                    &&& candidate_urls(media@, outcomes@[i].track.preview_url@).len() == 0
                },
        decreases rest@.len(),
    {
        let ghost old_rest = rest@;
        let ghost old_outcomes = outcomes@;
        let track = rest.remove(0);
        match Download::start(track, &media) {
            DownloadStep::Finished(o) => {
                outcomes.push(o);
                proof {
                    assert(tracks_of(outcomes@) =~= tracks_of(old_outcomes) + seq![track]);
                    assert(old_rest =~= seq![track] + rest@);
                    assert(tracks_of(outcomes@) + rest@ =~= tracks_of(old_outcomes) + old_rest);
                    assert(outcomes@.subrange(0, before.len() as int) =~= old_outcomes.subrange(
                        0,
                        before.len() as int,
                    ));
                    assert(outcomes@[old_outcomes.len() as int] == o);
                }
            },
            DownloadStep::Probe(d) => {
                proof {
                    assert(old_rest =~= seq![track] + rest@);
                    assert(tracks_of(outcomes@) + seq![track] + rest@ =~= tracks_of(outcomes@)
                        + old_rest);
                }
                return RunStep::Probe(Downloading { media, current: d, rest, outcomes, names });
            },
            DownloadStep::Save(d) => {
                return RunStep::Save(Downloading { media, current: d, rest, outcomes, names });
            },
        }
    }
    proof {
        assert(tracks_of(outcomes@) =~= tracks_of(outcomes@) + rest@);
    }
    RunStep::Finished(outcomes)
}

/// Moves on from a crawl step: waits for the next page, starts the downloads of the complete
/// catalog, or fails.
fn after_crawl(media: MediaConfig, step: CrawlStep) -> (r: RunStep)
    ensures
        ({
            let artist = match step {
                CrawlStep::Fetch(c) => c.artist_id@,
                _ => Seq::empty(),
            };
            follows_crawl(r, media@, step.state(), artist)
        }),
{
    match step {
        CrawlStep::Fetch(crawl) => RunStep::Fetch(Paging { media, crawl }),
        CrawlStep::Done(tracks) => {
            let names: Vec<String> = Vec::new();
            proof {
                assert(names.deep_view() =~= Seq::<Seq<char>>::empty());
            }
            start_downloads(media, tracks, Vec::new(), names)
        },
        CrawlStep::Failed(error) => RunStep::Failed(error),
    }
}

/// Starts a run from the reply to the artist lookup. A failed lookup ends the run; a first page
/// that announces no successor is the whole catalog.
pub fn begin(media: MediaConfig, lookup: Result<Uploads, CrawlError>) -> (r: RunStep)
    ensures
        match lookup {
            Ok(u) => follows_crawl(r, media@, after_page(Seq::empty(), u.page), u.owner_id@),
            Err(error) => r == RunStep::Failed(error),
        },
{
    match lookup {
        Ok(u) => {
            let Uploads { owner_id, page } = u;
            after_crawl(media, Crawl::start(owner_id, page))
        },
        Err(error) => RunStep::Failed(error),
    }
}

/// Whatever each download reported, a finished run that accounts for `catalog` holds exactly one
/// outcome per track of the catalog, in catalog order.
pub proof fn lemma_one_outcome_per_track(r: RunStep, catalog: Seq<Track>)
    requires
        r is Finished,
        r.accounts() == catalog,
    ensures
        r.recorded().len() == catalog.len(),
        forall|i: int| 0 <= i < catalog.len() ==> (#[trigger] r.recorded()[i]).track == catalog[i],
{
    assert forall|i: int| 0 <= i < catalog.len() implies (#[trigger] r.recorded()[i]).track
        == catalog[i] by {
        assert(tracks_of(r.recorded())[i] == r.recorded()[i].track);
    }
}

impl Paging {
    /// The body of the request for the awaited page.
    pub fn request(&self, query: &String) -> (r: Payload)
        ensures
            r@ == page_payload(query@, self.crawl.artist_id@, Some(self.crawl.cursor@)),
    {
        self.crawl.request(query)
    }

    /// Takes the reply to the page request.
    pub fn resume(self, reply: Result<Page, CrawlError>) -> (r: RunStep)
        ensures
            follows_crawl(r, self.media@, advance(self.crawl.state(), reply), self.crawl.artist_id@),
    {
        let Paging { media, crawl } = self;
        after_crawl(media, crawl.resume(reply))
    }
}

} // verus!
