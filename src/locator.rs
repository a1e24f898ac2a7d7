//! From a track's preview reference to the URLs that may serve its full-quality audio.
//!
//! The media id is the part of the reference after the last preview marker, with the preview
//! extension swapped for the full-quality one. Each delivery shard gets one URL, in ascending
//! shard order, which is the order in which they are probed.
use vstd::prelude::*;
use crate::text::{
    chars_of, decimal, decimal_string, ends_with, has_suffix, last_index_of, last_occurrence,
    slice_string,
};

verus! {

/// Where the media lives: the URL template's parts and the range of shard hosts.
pub struct MediaConfig {
    /// What precedes the media path in a preview reference (`previews/`).
    pub marker: String,
    /// The extension of preview files (`.mp3`).
    pub preview_ext: String,
    /// The domain that shard hosts live under.
    pub cdn_domain: String,
    /// The audio format served, which is also the full-quality extension (`m4a`).
    pub format: String,
    /// The bitrate asked for.
    pub bitrate: u32,
    /// The signature token appended to every URL.
    pub signature: String,
    /// The lowest shard index.
    pub first_shard: u32,
    /// How many shards there are, from `first_shard` on.
    pub shard_count: u32,
}

/// A media configuration as plain values.
pub struct MediaConfigView {
    pub marker: Seq<char>,
    pub preview_ext: Seq<char>,
    pub cdn_domain: Seq<char>,
    pub format: Seq<char>,
    pub bitrate: u32,
    pub signature: Seq<char>,
    pub first_shard: u32,
    pub shard_count: u32,
}

impl View for MediaConfig {
    type V = MediaConfigView;

    open spec fn view(&self) -> MediaConfigView {
        MediaConfigView {
            marker: self.marker@,
            preview_ext: self.preview_ext@,
            cdn_domain: self.cdn_domain@,
            format: self.format@,
            bitrate: self.bitrate,
            signature: self.signature@,
            first_shard: self.first_shard,
            shard_count: self.shard_count,
        }
    }
}

/// The extension of full-quality files: a dot and the format.
pub open spec fn full_ext(c: MediaConfigView) -> Seq<char> {
    "."@ + c.format
}

/// The media path with a trailing preview extension swapped for the full-quality one.
pub open spec fn with_full_ext(c: MediaConfigView, path: Seq<char>) -> Seq<char> {
    if ends_with(path, c.preview_ext) {
        path.subrange(0, path.len() - c.preview_ext.len()) + full_ext(c)
    } else {
        path
    }
}

/// The media id of `reference`: none where the marker does not occur in it.
pub open spec fn media_id_of(c: MediaConfigView, reference: Seq<char>) -> Option<Seq<char>> {
    let i = last_occurrence(reference, c.marker);
    if i < 0 {
        None
    } else {
        Some(with_full_ext(c, reference.subrange(i + c.marker.len(), reference.len() as int)))
    }
}

/// The URL of media `id` on shard `shard`.
pub open spec fn shard_url_of(c: MediaConfigView, shard: nat, id: Seq<char>) -> Seq<char> {
    "https://stream"@ + decimal(shard) + "."@ + c.cdn_domain + "/secure/c/"@ + c.format + "/"@
        + decimal(c.bitrate as nat) + "/"@ + id + "?sig="@ + c.signature
}

/// One URL per shard, in ascending shard order; none where the reference has no media id.
pub open spec fn candidate_urls(c: MediaConfigView, reference: Seq<char>) -> Seq<Seq<char>> {
    match media_id_of(c, reference) {
        Some(id) => Seq::new(
            c.shard_count as nat,
            |i: int| shard_url_of(c, (c.first_shard + i) as nat, id),
        ),
        None => Seq::empty(),
    }
}

/// The media id of `reference`, if the marker occurs in it.
pub fn media_id(config: &MediaConfig, reference: &String) -> (r: Option<String>)
    ensures
        r.deep_view() == media_id_of(config@, reference@),
{
    let text = chars_of(reference.as_str());
    let marker = chars_of(config.marker.as_str());
    match last_index_of(&text, &marker) {
        None => None,
        Some(i) => {
            proof {
                crate::text::lemma_last_at_or_before(
                    text@,
                    marker@,
                    text@.len() - marker@.len(),
                );
                assert(crate::text::occurs_at(text@, marker@, i as int));
            }
            let end = text.len();
            let path = slice_string(reference.as_str(), i + marker.len(), end);
            let path_chars = chars_of(path.as_str());
            let ext = chars_of(config.preview_ext.as_str());
            if has_suffix(&path_chars, &ext) {
                let mut id = slice_string(path.as_str(), 0, path_chars.len() - ext.len());
                id.append(".");
                id.append(config.format.as_str());
                proof {
                    assert(id@ =~= path@.subrange(0, path@.len() - ext@.len()) + full_ext(
                        config@,
                    ));
                }
                Some(id)
            } else {
                Some(path)
            }
        },
    }
}

/// The URL of media `id` on shard `shard`.
pub fn shard_url(config: &MediaConfig, shard: u64, id: &String) -> (r: String)
    ensures
        r@ == shard_url_of(config@, shard as nat, id@),
{
    let mut url = String::from_str("https://stream");
    url.append(decimal_string(shard).as_str());
    url.append(".");
    url.append(config.cdn_domain.as_str());
    url.append("/secure/c/");
    url.append(config.format.as_str());
    url.append("/");
    url.append(decimal_string(config.bitrate as u64).as_str());
    url.append("/");
    url.append(id.as_str());
    url.append("?sig=");
    url.append(config.signature.as_str());
    url
}

/// The URLs that may serve the full-quality audio of `reference`, one per shard, lowest shard
/// first.
pub fn candidates(config: &MediaConfig, reference: &String) -> (r: Vec<String>)
    ensures
        r.deep_view() == candidate_urls(config@, reference@),
{
    let mut urls: Vec<String> = Vec::new();
    match media_id(config, reference) {
        None => {
            assert(urls.deep_view() =~= candidate_urls(config@, reference@));
        },
        Some(id) => {
            let ghost all = candidate_urls(config@, reference@);
            let mut k: u32 = 0;
            while k < config.shard_count
                invariant
                    k <= config.shard_count,
                    all.len() == config.shard_count,
                    all == candidate_urls(config@, reference@),
                    media_id_of(config@, reference@) == Some(id@),
                    urls@.len() == k,
                    forall|j: int| 0 <= j < k ==> (#[trigger] urls@[j])@ == all[j],
                decreases config.shard_count - k,
            {
                let url = shard_url(config, config.first_shard as u64 + k as u64, &id);
                urls.push(url);
                k = k + 1;
            }
            assert(urls.deep_view() =~= all);
        },
    }
    urls
}

/// The candidate URLs depend on what the configuration and the reference hold, and on nothing
/// else: two calls on equal inputs give the same URLs in the same order.
pub proof fn lemma_candidates_deterministic(
    first: MediaConfig,
    second: MediaConfig,
    first_reference: String,
    second_reference: String,
)
    requires
        first@ == second@,
        first_reference@ == second_reference@,
    ensures
        candidate_urls(first@, first_reference@) == candidate_urls(second@, second_reference@),
{
}

} // verus!
