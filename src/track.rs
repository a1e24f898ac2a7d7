//! The records that catalog pages carry.
use vstd::prelude::*;

verus! {

/// One upload of an artist, as read from a catalog page. Identity is `id`.
pub struct Track {
    pub id: String,
    pub name: String,
    pub preview_url: String,
}

/// One page of an artist's uploads, in the order the server reported them.
pub struct Page {
    pub tracks: Vec<Track>,
    /// Where the next page starts.
    pub next_cursor: Option<String>,
    /// The server reports more uploads after this page.
    pub has_more: bool,
}

/// A decoded reply to a lookup or page query: the id of the artist it is about, and one page.
pub struct Uploads {
    pub owner_id: String,
    pub page: Page,
}

/// The tracks of each page in turn, concatenated.
pub open spec fn catalog_of(pages: Seq<Page>) -> Seq<Track>
    decreases pages.len(),
{
    if pages.len() == 0 {
        Seq::empty()
    } else {
        pages[0].tracks@ + catalog_of(pages.drop_first())
    }
}

} // verus!
