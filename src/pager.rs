//! Paging through an artist's uploads: the decisions between two page fetches.
//!
//! A crawl starts from the first page, which the artist lookup returns inline. While the last
//! page announces a successor, the crawl asks for the page at its cursor (`CrawlStep::Fetch`);
//! the caller performs the request and hands the reply back to `Crawl::resume`. A failed
//! reply ends the crawl with that error and drops every track gathered so far.
use vstd::prelude::*;
use crate::payload::{Payload, build_page_query, page_payload};
use crate::track::{Page, Track, Uploads, catalog_of};

verus! {

/// The request that a reply answers.
#[derive(Clone, Copy, Debug, PartialEq, Eq, Structural)]
pub enum Stage {
    Lookup,
    Page,
}

/// Why a lookup or a page could not be had. Either one ends the whole run.
pub enum CrawlError {
    /// The request did not get an answer: connection, DNS or TLS failure.
    Transport { stage: Stage, message: String },
    /// The answer was not a success, or its body was not a page: status and raw body are kept.
    Api { stage: Stage, status: u16, body: String },
}

/// A page that announces more uploads also says where they start.
pub open spec fn page_is_complete(p: Page) -> bool {
    p.has_more ==> p.next_cursor is Some
}

/// Checks a reply of the GraphQL endpoint: `decoded` is what its body decoded to, if anything.
/// A success status with a complete page is accepted; anything else is an `Api` error that keeps
/// the status and the raw body.
pub fn check_reply(stage: Stage, status: u16, body: String, decoded: Option<Uploads>) -> (r: Result<
    Uploads,
    CrawlError,
>)
    ensures
        status == 200 && decoded is Some && page_is_complete(decoded->Some_0.page) ==> r == Ok::<
            Uploads,
            CrawlError,
        >(decoded->Some_0),
        !(status == 200 && decoded is Some && page_is_complete(decoded->Some_0.page)) ==> r
            == Err::<Uploads, CrawlError>(CrawlError::Api { stage, status, body }),
{
    match decoded {
        Some(u) => {
            if status == 200 && (!u.page.has_more || u.page.next_cursor.is_some()) {
                Ok(u)
            } else {
                Err(CrawlError::Api { stage, status, body })
            }
        },
        None => Err(CrawlError::Api { stage, status, body }),
    }
}

/// Where a crawl stands, as plain values.
pub enum CrawlState {
    /// Waiting for the page that starts at `cursor`, with `tracks` gathered so far.
    Awaiting { tracks: Seq<Track>, cursor: Seq<char> },
    /// The catalog is complete.
    Complete { tracks: Seq<Track> },
    /// A fetch failed; nothing is kept.
    Aborted { error: CrawlError },
}

/// The page is followed by another one, at its cursor.
pub open spec fn follows(p: Page) -> bool {
    p.has_more && p.next_cursor is Some
}

/// The state after `page` arrives, with `tracks` gathered before it.
pub open spec fn after_page(tracks: Seq<Track>, page: Page) -> CrawlState {
    if follows(page) {
        CrawlState::Awaiting { tracks: tracks + page.tracks@, cursor: page.next_cursor->Some_0@ }
    } else {
        CrawlState::Complete { tracks: tracks + page.tracks@ }
    }
}

/// The state after one reply. Only a crawl that waits takes replies.
pub open spec fn advance(s: CrawlState, reply: Result<Page, CrawlError>) -> CrawlState {
    match s {
        CrawlState::Awaiting { tracks, .. } => match reply {
            Ok(page) => after_page(tracks, page),
            Err(error) => CrawlState::Aborted { error },
        },
        _ => s,
    }
}

/// The state after the replies, in order.
pub open spec fn replay(s: CrawlState, replies: Seq<Result<Page, CrawlError>>) -> CrawlState
    decreases replies.len(),
{
    if replies.len() == 0 {
        s
    } else {
        replay(advance(s, replies[0]), replies.drop_first())
    }
}

/// Each page as a successful reply.
pub open spec fn replies_of(pages: Seq<Page>) -> Seq<Result<Page, CrawlError>> {
    pages.map_values(|p: Page| Ok::<Page, CrawlError>(p))
}

/// A crawl that waits for the page at `cursor` of artist `artist_id`.
pub struct Crawl {
    pub artist_id: String,
    pub tracks: Vec<Track>,
    pub cursor: String,
}

/// What a crawl asks for next.
pub enum CrawlStep {
    /// Fetch the page at the crawl's cursor, then `resume` with the reply.
    Fetch(Crawl),
    /// The whole catalog, in page order.
    Done(Vec<Track>),
    /// The fetch that failed.
    Failed(CrawlError),
}

impl CrawlStep {
    pub open spec fn state(&self) -> CrawlState {
        match self {
            CrawlStep::Fetch(c) => c.state(),
            CrawlStep::Done(tracks) => CrawlState::Complete { tracks: tracks@ },
            CrawlStep::Failed(error) => CrawlState::Aborted { error: *error },
        }
    }

    /// The crawl, if it goes on, still pages through artist `id`.
    pub open spec fn keeps_artist(&self, id: Seq<char>) -> bool {
        self matches CrawlStep::Fetch(c) ==> c.artist_id@ == id
    }
}

impl Crawl {
    pub open spec fn state(&self) -> CrawlState {
        CrawlState::Awaiting { tracks: self.tracks@, cursor: self.cursor@ }
    }

    /// Adds `page` to `tracks` and decides whether another page is needed.
    fn after(artist_id: String, tracks: Vec<Track>, page: Page) -> (r: CrawlStep)
        ensures
            r.state() == after_page(tracks@, page),
            r.keeps_artist(artist_id@),
    {
        let mut tracks = tracks;
        let Page { tracks: mut more, next_cursor, has_more } = page;
        tracks.append(&mut more);
        if has_more {
            match next_cursor {
                Some(cursor) => CrawlStep::Fetch(Crawl { artist_id, tracks, cursor }),
                None => CrawlStep::Done(tracks),
            }
        } else {
            CrawlStep::Done(tracks)
        }
    }

    /// Starts the crawl of artist `artist_id` from its first page. A first page that announces
    /// no successor is the whole catalog.
    pub fn start(artist_id: String, first: Page) -> (r: CrawlStep)
        ensures
            r.state() == after_page(Seq::empty(), first),
            r.keeps_artist(artist_id@),
    {
        Crawl::after(artist_id, Vec::new(), first)
    }

    /// The body of the request for the awaited page.
    pub fn request(&self, query: &String) -> (r: Payload)
        ensures
            r@ == page_payload(query@, self.artist_id@, Some(self.cursor@)),
    {
        build_page_query(query, &self.artist_id, Some(&self.cursor))
    }

    /// Takes the reply to the request for the awaited page.
    pub fn resume(self, reply: Result<Page, CrawlError>) -> (r: CrawlStep)
        ensures
            r.state() == advance(self.state(), reply),
            r.keeps_artist(self.artist_id@),
    {
        match reply {
            Ok(page) => Crawl::after(self.artist_id, self.tracks, page),
            Err(error) => CrawlStep::Failed(error),
        }
    }
}

/// A crawl that has ended takes no more replies.
pub proof fn lemma_replay_ended(s: CrawlState, replies: Seq<Result<Page, CrawlError>>)
    requires
        s !is Awaiting,
    ensures
        replay(s, replies) == s,
    decreases replies.len(),
{
    if replies.len() > 0 {
        lemma_replay_ended(advance(s, replies[0]), replies.drop_first());
    }
}

proof fn lemma_replay_pages(gathered: Seq<Track>, pages: Seq<Page>)
    requires
        pages.len() >= 1,
        forall|i: int| 0 <= i < pages.len() - 1 ==> follows(#[trigger] pages[i]),
        !pages.last().has_more,
    ensures
        replay(after_page(gathered, pages[0]), replies_of(pages.drop_first()))
            == (CrawlState::Complete { tracks: gathered + catalog_of(pages) }),
    decreases pages.len(),
{
    let rest = pages.drop_first();
    if pages.len() == 1 {
        assert(catalog_of(rest) =~= Seq::<Track>::empty());
        assert(gathered + catalog_of(pages) =~= gathered + pages[0].tracks@);
    } else {
        assert(follows(pages[0]));
        let more = gathered + pages[0].tracks@;
        assert(replies_of(rest)[0] == Ok::<Page, CrawlError>(rest[0]));
        assert(replies_of(rest).drop_first() =~= replies_of(rest.drop_first()));
        assert forall|i: int| 0 <= i < rest.len() - 1 implies follows(#[trigger] rest[i]) by {
            assert(rest[i] == pages[i + 1]);
        }
        lemma_replay_pages(more, rest);
        assert(gathered + catalog_of(pages) =~= more + catalog_of(rest));
    }
}

/// Paging from a first page through pages that each announce a successor, up to one that
/// announces none, gives every page's tracks, concatenated in page order, whatever the count.
pub proof fn lemma_crawl_concatenates(pages: Seq<Page>)
    requires
        pages.len() >= 1,
        forall|i: int| 0 <= i < pages.len() - 1 ==> follows(#[trigger] pages[i]),
        !pages.last().has_more,
    ensures
        replay(after_page(Seq::empty(), pages[0]), replies_of(pages.drop_first()))
            == (CrawlState::Complete { tracks: catalog_of(pages) }),
{
    lemma_replay_pages(Seq::empty(), pages);
    assert(Seq::<Track>::empty() + catalog_of(pages) =~= catalog_of(pages));
}

proof fn lemma_replay_failure(
    gathered: Seq<Track>,
    pages: Seq<Page>,
    error: CrawlError,
    later: Seq<Result<Page, CrawlError>>,
)
    requires
        pages.len() >= 1,
        forall|i: int| 0 <= i < pages.len() ==> follows(#[trigger] pages[i]),
    ensures
        replay(
            after_page(gathered, pages[0]),
            replies_of(pages.drop_first()) + seq![Err::<Page, CrawlError>(error)] + later,
        ) == (CrawlState::Aborted { error }),
    decreases pages.len(),
{
    let rest = pages.drop_first();
    let replies = replies_of(rest) + seq![Err::<Page, CrawlError>(error)] + later;
    assert(follows(pages[0]));
    let more = gathered + pages[0].tracks@;
    if pages.len() == 1 {
        assert(replies[0] == Err::<Page, CrawlError>(error));
        lemma_replay_ended(CrawlState::Aborted { error }, replies.drop_first());
    } else {
        assert(replies[0] == Ok::<Page, CrawlError>(rest[0]));
        assert(replies.drop_first() =~= replies_of(rest.drop_first()) + seq![
            Err::<Page, CrawlError>(error),
        ] + later);
        assert forall|i: int| 0 <= i < rest.len() implies follows(#[trigger] rest[i]) by {
            assert(rest[i] == pages[i + 1]);
        }
        lemma_replay_failure(more, rest, error, later);
    }
}

/// When the fetch after some pages fails, the crawl ends with that error and no catalog,
/// whatever replies would have come after it.
pub proof fn lemma_crawl_failure_aborts(
    pages: Seq<Page>,
    error: CrawlError,
    later: Seq<Result<Page, CrawlError>>,
)
    requires
        pages.len() >= 1,
        forall|i: int| 0 <= i < pages.len() ==> follows(#[trigger] pages[i]),
    ensures
        replay(
            after_page(Seq::empty(), pages[0]),
            replies_of(pages.drop_first()) + seq![Err::<Page, CrawlError>(error)] + later,
        ) == (CrawlState::Aborted { error }),
{
    lemma_replay_failure(Seq::empty(), pages, error, later);
}

} // verus!
