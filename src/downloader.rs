//! The decisions of one track's download: which shard to probe next, when to save a body, and
//! what the outcome is.
//!
//! Shards are probed one at a time, lowest first. A shard that answers with a success status has
//! its body saved; one that answers otherwise, or whose request or body stream breaks, is passed
//! over for the next one. The caller removes a partially written file before it reports a
//! broken stream. When every shard has failed, the outcome carries the last error seen.
use vstd::prelude::*;
use crate::locator::{MediaConfig, MediaConfigView, candidate_urls, candidates};
use crate::track::Track;

verus! {

/// What the caller saw after a probe or a save.
pub enum ProbeEvent {
    /// The shard answered with this status; its body has not been read.
    Answered(u16),
    /// The request, or the stream of the body, failed; no partial file is left.
    Broken(String),
    /// The body was written in full to the destination: this many bytes.
    Saved(u64),
}

/// Why a track could not be downloaded. It ends that track only, never the run.
pub enum DownloadError {
    /// The preview reference names no media, so there is no shard to probe.
    NoMedia,
    /// The last shard probed answered with this status.
    Status(u16),
    /// The last probe or save failed in transport.
    Transport(String),
}

/// The result of one track's download.
pub enum DownloadResult {
    /// This many bytes were written.
    Success(u64),
    Failure(DownloadError),
}

/// One track and what became of its download.
pub struct DownloadOutcome {
    pub track: Track,
    pub result: DownloadResult,
}

/// Where a download stands, as plain values.
pub enum DownloadState {
    /// The shard URL `urls[next]` is being tried.
    Trying { urls: Seq<Seq<char>>, next: int },
    Finished { result: DownloadResult },
}

/// An event that passes the current shard over.
pub open spec fn is_failure(e: ProbeEvent) -> bool {
    match e {
        ProbeEvent::Answered(status) => status != 200,
        ProbeEvent::Broken(_) => true,
        ProbeEvent::Saved(_) => false,
    }
}

/// The error that a failing event leaves behind.
pub open spec fn error_of(e: ProbeEvent) -> DownloadError {
    match e {
        ProbeEvent::Answered(status) => DownloadError::Status(status),
        ProbeEvent::Broken(message) => DownloadError::Transport(message),
        ProbeEvent::Saved(_) => DownloadError::NoMedia,
    }
}

/// The state in which a download starts: its first candidate, or a failure if there is none.
pub open spec fn start_state(c: MediaConfigView, reference: Seq<char>) -> DownloadState {
    let urls = candidate_urls(c, reference);
    if urls.len() == 0 {
        DownloadState::Finished { result: DownloadResult::Failure(DownloadError::NoMedia) }
    } else {
        DownloadState::Trying { urls, next: 0 }
    }
}

/// The state after one event.
pub open spec fn on_event(s: DownloadState, e: ProbeEvent) -> DownloadState {
    match s {
        DownloadState::Trying { urls, next } => if is_failure(e) {
            if next < urls.len() - 1 {
                DownloadState::Trying { urls, next: next + 1 }
            } else {
                DownloadState::Finished { result: DownloadResult::Failure(error_of(e)) }
            }
        } else {
            match e {
                ProbeEvent::Saved(bytes) => DownloadState::Finished {
                    result: DownloadResult::Success(bytes),
                },
                _ => s,
            }
        },
        DownloadState::Finished { .. } => s,
    }
}

/// The URLs requested in answer to one event: the next shard, when the current one failed and
/// another remains.
pub open spec fn probes_after(s: DownloadState, e: ProbeEvent) -> Seq<Seq<char>> {
    match on_event(s, e) {
        DownloadState::Trying { urls, next } => if s is Trying && next != s->next {
            seq![urls[next]]
        } else {
            Seq::empty()
        },
        _ => Seq::empty(),
    }
}

/// The state after the events, in order.
pub open spec fn run_events(s: DownloadState, events: Seq<ProbeEvent>) -> DownloadState
    decreases events.len(),
{
    if events.len() == 0 {
        s
    } else {
        run_events(on_event(s, events[0]), events.drop_first())
    }
}

/// The URLs requested in answer to the events, in order.
pub open spec fn probe_log(s: DownloadState, events: Seq<ProbeEvent>) -> Seq<Seq<char>>
    decreases events.len(),
{
    if events.len() == 0 {
        Seq::empty()
    } else {
        probes_after(s, events[0]) + probe_log(on_event(s, events[0]), events.drop_first())
    }
}

/// A download of `track` that tries `urls[next]`.
pub struct Download {
    pub track: Track,
    pub urls: Vec<String>,
    pub next: usize,
}

/// What a download asks for next.
pub enum DownloadStep {
    /// Request the download's current URL and report `Answered` or `Broken`.
    Probe(Download),
    /// Write the body of the answer just received to the destination and report `Saved`, or
    /// remove what was written and report `Broken`.
    Save(Download),
    Finished(DownloadOutcome),
}

impl Download {
    pub open spec fn wf(&self) -> bool {
        self.next < self.urls@.len()
    }

    pub open spec fn state(&self) -> DownloadState {
        DownloadState::Trying { urls: self.urls.deep_view(), next: self.next as int }
    }

    /// Starts the download of `track`: its first shard, or a failure if its preview reference
    /// names no media.
    pub fn start(track: Track, config: &MediaConfig) -> (r: DownloadStep)
        ensures
            r.state() == start_state(config@, track.preview_url@),
            r !is Save,
            r.wf(),
            r.track() == track,
    {
        let urls = candidates(config, &track.preview_url);
        if urls.len() == 0 {
            DownloadStep::Finished(
                DownloadOutcome {
                    track,
                    result: DownloadResult::Failure(DownloadError::NoMedia),
                },
            )
        } else {
            DownloadStep::Probe(Download { track, urls, next: 0 })
        }
    }

    /// The URL being tried.
    pub fn url(&self) -> (r: &String)
        requires
            self.wf(),
        ensures
            r@ == self.urls.deep_view()[self.next as int],
    {
        &self.urls[self.next]
    }

    /// Takes what the caller saw after the last probe or save.
    pub fn step(self, event: ProbeEvent) -> (r: DownloadStep)
        requires
            self.wf(),
        ensures
            r.state() == on_event(self.state(), event),
            r is Probe <==> is_failure(event) && self.next + 1 < self.urls@.len(),
            r is Save <==> event == ProbeEvent::Answered(200),
            r.wf(),
            r.track() == self.track,
    {
        let Download { track, urls, next } = self;
        match event {
            ProbeEvent::Saved(bytes) => DownloadStep::Finished(
                DownloadOutcome { track, result: DownloadResult::Success(bytes) },
            ),
            ProbeEvent::Answered(status) => {
                if status == 200 {
                    DownloadStep::Save(Download { track, urls, next })
                } else if next < urls.len() - 1 {
                    DownloadStep::Probe(Download { track, urls, next: next + 1 })
                } else {
                    DownloadStep::Finished(
                        DownloadOutcome {
                            track,
                            result: DownloadResult::Failure(DownloadError::Status(status)),
                        },
                    )
                }
            },
            ProbeEvent::Broken(message) => {
                if next < urls.len() - 1 {
                    DownloadStep::Probe(Download { track, urls, next: next + 1 })
                } else {
                    DownloadStep::Finished(
                        DownloadOutcome {
                            track,
                            result: DownloadResult::Failure(DownloadError::Transport(message)),
                        },
                    )
                }
            },
        }
    }
}

impl DownloadStep {
    pub open spec fn state(&self) -> DownloadState {
        match self {
            DownloadStep::Probe(d) => d.state(),
            DownloadStep::Save(d) => d.state(),
            DownloadStep::Finished(o) => DownloadState::Finished { result: o.result },
        }
    }

    pub open spec fn wf(&self) -> bool {
        match self {
            DownloadStep::Probe(d) => d.wf(),
            DownloadStep::Save(d) => d.wf(),
            DownloadStep::Finished(_) => true,
        }
    }

    /// The track that the download is for.
    pub open spec fn track(&self) -> Track {
        match self {
            DownloadStep::Probe(d) => d.track,
            DownloadStep::Save(d) => d.track,
            DownloadStep::Finished(o) => o.track,
        }
    }
}

/// `written` in whole percent of `total`, rounded down.
pub open spec fn percent_of(written: u64, total: u64) -> int {
    (written as int * 100) / (total as int)
}

/// How far a save has come: `written` bytes in whole percent of the declared `total`, at most
/// 100. Unknown when no total, or a total of zero, was declared.
pub fn progress_percent(written: u64, total: Option<u64>) -> (r: Option<u64>)
    ensures
        match total {
            Some(t) => t > 0 ==> r == Some(
                if percent_of(written, t) >= 100 {
                    100u64
                } else {
                    percent_of(written, t) as u64
                },
            ),
            None => r is None,
        },
        total == Some(0u64) ==> r is None,
{
    match total {
        Some(t) => {
            if t == 0 {
                None
            } else {
                assert(written * 100 <= u64::MAX as int * 100) by (nonlinear_arith);
                let share: u128 = written as u128 * 100 / t as u128;
                if share >= 100 {
                    Some(100)
                } else {
                    Some(share as u64)
                }
            }
        },
        None => None,
    }
}

/// A finished download takes no more events and requests nothing.
pub proof fn lemma_finished_stays(s: DownloadState, events: Seq<ProbeEvent>)
    requires
        s is Finished,
    ensures
        run_events(s, events) == s,
        probe_log(s, events) == Seq::<Seq<char>>::empty(),
    decreases events.len(),
{
    if events.len() > 0 {
        lemma_finished_stays(on_event(s, events[0]), events.drop_first());
    }
}

proof fn lemma_pass_over(urls: Seq<Seq<char>>, next: int, failures: Seq<ProbeEvent>, rest: Seq<ProbeEvent>)
    requires
        0 <= next,
        next + failures.len() < urls.len(),
        forall|j: int| 0 <= j < failures.len() ==> is_failure(#[trigger] failures[j]),
    ensures
        run_events(DownloadState::Trying { urls, next }, failures + rest) == run_events(
            DownloadState::Trying { urls, next: next + failures.len() },
            rest,
        ),
        probe_log(DownloadState::Trying { urls, next }, failures + rest) == urls.subrange(
            next + 1,
            next + failures.len() + 1,
        ) + probe_log(DownloadState::Trying { urls, next: next + failures.len() }, rest),
    decreases failures.len(),
{
    let s = DownloadState::Trying { urls, next };
    if failures.len() == 0 {
        assert(failures + rest =~= rest);
        assert(urls.subrange(next + 1, next + 1) =~= Seq::<Seq<char>>::empty());
    } else {
        let events = failures + rest;
        assert(events[0] == failures[0]);
        assert(events.drop_first() =~= failures.drop_first() + rest);
        let t = DownloadState::Trying { urls, next: next + 1 };
        assert(on_event(s, events[0]) == t);
        assert(probes_after(s, events[0]) == seq![urls[next + 1]]);
        assert forall|j: int| 0 <= j < failures.drop_first().len() implies is_failure(
            #[trigger] failures.drop_first()[j],
        ) by {
            assert(failures.drop_first()[j] == failures[j + 1]);
        }
        lemma_pass_over(urls, next + 1, failures.drop_first(), rest);
        assert(seq![urls[next + 1]] + urls.subrange(next + 2, next + failures.len() + 1)
            =~= urls.subrange(next + 1, next + failures.len() + 1));
    }
}

/// When the shard at index `k` is the first that serves the media, the download probes the
/// shards below it and then that one, saves its body, and succeeds; it requests nothing more,
/// whatever is reported afterwards. `urls` are the candidates, and `failures` what the shards
/// below `k` gave (so `k` is its length).
pub proof fn lemma_first_serving_shard_wins(
    urls: Seq<Seq<char>>,
    failures: Seq<ProbeEvent>,
    bytes: u64,
    later: Seq<ProbeEvent>,
)
    requires
        failures.len() < urls.len(),
        forall|j: int| 0 <= j < failures.len() ==> is_failure(#[trigger] failures[j]),
    ensures
        ({
            let events = failures + seq![ProbeEvent::Answered(200), ProbeEvent::Saved(bytes)]
                + later;
            let start = DownloadState::Trying { urls, next: 0 };
            &&& run_events(start, events) == (DownloadState::Finished {
                result: DownloadResult::Success(bytes),
            })
            &&& seq![urls[0]] + probe_log(start, events) == urls.subrange(
                0,
                failures.len() + 1 as int,
            )
        }),
{
    let k = failures.len() as int;
    let tail = seq![ProbeEvent::Answered(200), ProbeEvent::Saved(bytes)] + later;
    let events = failures + tail;
    assert(events =~= failures + seq![ProbeEvent::Answered(200), ProbeEvent::Saved(bytes)]
        + later);
    lemma_pass_over(urls, 0, failures, tail);
    let at_k = DownloadState::Trying { urls, next: k };
    assert(tail[0] == ProbeEvent::Answered(200));
    assert(on_event(at_k, tail[0]) == at_k);
    let rest = tail.drop_first();
    assert(rest[0] == ProbeEvent::Saved(bytes));
    let done = DownloadState::Finished { result: DownloadResult::Success(bytes) };
    assert(on_event(at_k, rest[0]) == done);
    assert(rest.drop_first() =~= later);
    lemma_finished_stays(done, later);
    assert(probes_after(at_k, tail[0]) =~= Seq::<Seq<char>>::empty());
    assert(probes_after(at_k, rest[0]) =~= Seq::<Seq<char>>::empty());
    assert(run_events(at_k, rest) == run_events(done, later));
    assert(run_events(at_k, tail) == run_events(at_k, rest));
    assert(probe_log(at_k, rest) =~= probe_log(done, later));
    assert(probe_log(at_k, tail) =~= Seq::<Seq<char>>::empty());
    assert(seq![urls[0]] + urls.subrange(1, k + 1) =~= urls.subrange(0, k + 1));
}

/// When no shard serves the media, the download probes every shard once, in order, and fails
/// with the error of the last one.
pub proof fn lemma_no_serving_shard_fails(urls: Seq<Seq<char>>, failures: Seq<ProbeEvent>)
    requires
        urls.len() >= 1,
        failures.len() == urls.len(),
        forall|j: int| 0 <= j < failures.len() ==> is_failure(#[trigger] failures[j]),
    ensures
        ({
            let start = DownloadState::Trying { urls, next: 0 };
            &&& run_events(start, failures) == (DownloadState::Finished {
                result: DownloadResult::Failure(error_of(failures.last())),
            })
            &&& seq![urls[0]] + probe_log(start, failures) == urls
        }),
{
    let n = urls.len() as int;
    let init = failures.drop_last();
    let last = seq![failures.last()];
    assert(failures =~= init + last);
    assert forall|j: int| 0 <= j < init.len() implies is_failure(#[trigger] init[j]) by {
        assert(init[j] == failures[j]);
    }
    lemma_pass_over(urls, 0, init, last);
    let at_last = DownloadState::Trying { urls, next: n - 1 };
    assert(is_failure(failures[n - 1]));
    let done = DownloadState::Finished { result: DownloadResult::Failure(error_of(failures.last())) };
    assert(on_event(at_last, last[0]) == done);
    assert(last.drop_first() =~= Seq::<ProbeEvent>::empty());
    assert(probes_after(at_last, last[0]) =~= Seq::<Seq<char>>::empty());
    assert(run_events(at_last, last) == run_events(done, last.drop_first()));
    assert(probe_log(at_last, last) =~= probe_log(done, last.drop_first()));
    assert(probe_log(at_last, last) =~= Seq::<Seq<char>>::empty());
    assert(seq![urls[0]] + urls.subrange(1, n) =~= urls);
}

} // verus!
