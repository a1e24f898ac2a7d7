//! The bodies of the GraphQL requests: an artist lookup and a page query.
use vstd::prelude::*;

verus! {

/// How many uploads one page asks for.
pub const PAGE_SIZE: u32 = 10;

/// The ordering key: most recent first.
pub open spec fn latest_first() -> Seq<char> {
    "LATEST"@
}

/// The variables of a request.
pub struct Variables {
    /// The handle looked up (artist lookup only).
    pub username: Option<String>,
    /// The artist whose uploads are paged (page query only).
    pub id: Option<String>,
    /// Where the requested page starts; absent for the first page.
    pub cursor: Option<String>,
    pub order_by: String,
    pub count: u32,
}

/// A request body: a query document and its variables.
pub struct Payload {
    pub query: String,
    pub variables: Variables,
}

/// A request body as plain values.
pub struct PayloadView {
    pub query: Seq<char>,
    pub username: Option<Seq<char>>,
    pub id: Option<Seq<char>>,
    pub cursor: Option<Seq<char>>,
    pub order_by: Seq<char>,
    pub count: u32,
}

impl View for Payload {
    type V = PayloadView;

    open spec fn view(&self) -> PayloadView {
        PayloadView {
            query: self.query@,
            username: self.variables.username.deep_view(),
            id: self.variables.id.deep_view(),
            cursor: self.variables.cursor.deep_view(),
            order_by: self.variables.order_by@,
            count: self.variables.count,
        }
    }
}

/// The body that looks up the artist `handle`; its reply carries the first page.
pub open spec fn lookup_payload(query: Seq<char>, handle: Seq<char>) -> PayloadView {
    PayloadView {
        query,
        username: Some(handle),
        id: None,
        cursor: None,
        order_by: latest_first(),
        count: PAGE_SIZE,
    }
}

/// The body that asks for the page of artist `id` that starts at `cursor`.
pub open spec fn page_payload(query: Seq<char>, id: Seq<char>, cursor: Option<Seq<char>>) -> PayloadView {
    PayloadView { query, username: None, id: Some(id), cursor, order_by: latest_first(), count: PAGE_SIZE }
}

/// Builds the artist-lookup body for `handle`.
pub fn build_artist_lookup(query: &String, handle: &String) -> (r: Payload)
    requires
        handle@.len() > 0,
    ensures
        r@ == lookup_payload(query@, handle@),
{
    Payload {
        query: query.clone(),
        variables: Variables {
            username: Some(handle.clone()),
            id: None,
            cursor: None,
            order_by: String::from_str("LATEST"),
            count: PAGE_SIZE,
        },
    }
}

/// Builds the page-query body for artist `artist_id`, starting at `cursor`.
pub fn build_page_query(query: &String, artist_id: &String, cursor: Option<&String>) -> (r: Payload)
    ensures
        r@ == page_payload(
            query@,
            artist_id@,
            match cursor {
                Some(c) => Some(c@),
                None => None,
            },
        ),
{
    let cursor = match cursor {
        Some(c) => Some(c.clone()),
        None => None,
    };
    Payload {
        query: query.clone(),
        variables: Variables {
            username: None,
            id: Some(artist_id.clone()),
            cursor,
            order_by: String::from_str("LATEST"),
            count: PAGE_SIZE,
        },
    }
}

} // verus!
