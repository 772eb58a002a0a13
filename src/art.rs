//! Cover art: planning fetches against the cache, and the decisions of the
//! worker that serves art requests and hears of finished downloads.
use vstd::prelude::*;
use crate::mpris::{Event, Metadata};

pub mod fetcher;

use self::fetcher::{
    after_finish, after_request, art_locator, finish_notes, note, notes, opt_bytes, request_step,
    ArtNote, FetchError, FetchPlan, Fetcher, FetcherExt, FetcherModel, Step,
};

verus! {

/// A message to the art worker.
#[derive(Debug)]
pub enum ArtRequest {
    /// Fetch the art of this track.
    Fetch(Metadata),
    /// The download of this URL ended, with its body on success.
    Finished(String, Option<Vec<u8>>),
}

/// Something the art worker has to do.
#[derive(Debug)]
pub enum ArtAction {
    /// Send the event to the consumer.
    Send(Event),
    /// Start a streamed download of the URL (first) whose chunks name the
    /// locator (second).
    Download(String, String),
    /// Report a request that could not be served.
    Report(FetchError),
}

/// What an action says about cover art, where it sends an event.
pub open spec fn sent(a: ArtAction) -> ArtNote {
    match a {
        ArtAction::Send(e) => note(e),
        _ => ArtNote::Other,
    }
}

/// `acts` only send events, and those say `ns`.
pub open spec fn sends(acts: Seq<ArtAction>, ns: Seq<ArtNote>) -> bool {
    &&& forall|i: int| 0 <= i < acts.len() ==> #[trigger] acts[i] is Send
    &&& acts.map_values(|a: ArtAction| sent(a)) == ns
}

/// `acts` carry out `step` for a request for `loc`.
pub open spec fn actions_for(acts: Seq<ArtAction>, step: Step, loc: Seq<char>) -> bool {
    match step {
        Step::Rejected(e) => acts.len() == 1 && acts[0] == ArtAction::Report(e),
        Step::Serve(l, body) => sends(
            acts,
            seq![ArtNote::Chunk(l, body), ArtNote::Complete(l, true)],
        ),
        Step::Join(_) => acts.len() == 0,
        Step::Start(url) => {
            &&& acts.len() == 1
            &&& acts[0] matches ArtAction::Download(k, l) && k@ == url && l@ == loc
        },
    }
}

fn send_all(evs: Vec<Event>) -> (r: Vec<ArtAction>)
    ensures
        sends(r@, notes(evs@)),
{
    let ghost all = evs@;
    let n = evs.len();
    let mut rest = evs;
    let mut acts: Vec<ArtAction> = Vec::new();
    let mut i: usize = 0;
    assert(all.skip(0) =~= all);
    assert(acts@.map_values(|a: ArtAction| sent(a)) =~= notes(all.take(0)));
    while rest.len() > 0
        invariant
            i <= all.len(),
            all.len() == n,
            rest@ == all.skip(i as int),
            forall|j: int| 0 <= j < acts@.len() ==> #[trigger] acts@[j] is Send,
            acts@.map_values(|a: ArtAction| sent(a)) == notes(all.take(i as int)),
        decreases rest@.len(),
    {
        let ghost prev = acts@;
        let ev = rest.remove(0);
        assert(all[i as int] == ev);
        assert(rest@ =~= all.skip(i + 1));
        acts.push(ArtAction::Send(ev));
        assert(notes(all.take(i + 1)) =~= notes(all.take(i as int)).push(note(ev)));
        assert(acts@.map_values(|a: ArtAction| sent(a)) =~= prev.map_values(|a: ArtAction| sent(a)).push(
            note(ev),
        ));
        i = i + 1;
    }
    assert(all.take(i as int) =~= all);
    acts
}

/// The art worker's state: the cache and the downloads in flight.
pub struct Manager {
    fetcher: Fetcher,
}

impl Manager {
    /// The cache and the downloads in flight, as values.
    pub closed spec fn model(&self) -> FetcherModel {
        self.fetcher.model()
    }

    /// A worker with an empty cache and nothing in flight.
    pub fn new() -> (r: Manager)
        ensures
            r.model().cache == Map::<Seq<char>, Seq<u8>>::empty(),
            r.model().pending == Map::<Seq<char>, fetcher::InFlight>::empty(),
    {
        Manager { fetcher: Fetcher::new() }
    }

    /// Runs the worker's decision on one message. A track without art asks
    /// for nothing; an unusable locator is reported; a cached URL is served
    /// at once; a URL in flight is joined; any other is downloaded. The end
    /// of a download is reported to every locator that waited on it.
    pub fn run(&mut self, req: ArtRequest) -> (r: Vec<ArtAction>)
        ensures
            match req {
                ArtRequest::Fetch(data) => match art_locator(data) {
                    None => r@.len() == 0 && final(self).model() == old(self).model(),
                    Some(loc) => {
                        &&& actions_for(r@, request_step(old(self).model(), loc), loc)
                        &&& final(self).model() == after_request(old(self).model(), loc)
                    },
                },
                ArtRequest::Finished(url, body) => {
                    &&& final(self).model() == after_finish(old(self).model(), url@, opt_bytes(body))
                    &&& sends(r@, finish_notes(old(self).model(), url@, opt_bytes(body)))
                },
            },
    {
        let mut acts: Vec<ArtAction> = Vec::new();
        assert(acts@.map_values(|a: ArtAction| sent(a)) =~= Seq::<ArtNote>::empty());
        match req {
            ArtRequest::Fetch(data) => {
                match self.fetcher.fetch(&data) {
                    Ok(FetchPlan::Cached(evs)) => {
                        acts = send_all(evs);
                    },
                    Ok(FetchPlan::Joined(_)) => {},
                    Ok(FetchPlan::Download(url, loc)) => {
                        acts.push(ArtAction::Download(url, loc));
                    },
                    Err(FetchError::MissingLocator) => {},
                    Err(e) => {
                        acts.push(ArtAction::Report(e));
                    },
                }
            },
            ArtRequest::Finished(url, body) => {
                let evs = self.fetcher.finish(&url, body);
                acts = send_all(evs);
            },
        }
        acts
    }
}

} // verus!
