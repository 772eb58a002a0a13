//! Cover-art fetch planning. A locator is resolved to the URL it is fetched
//! from; that URL keys a process-lifetime cache and the downloads in flight.
//! Every art event names the locator it answers, as the track gave it.
//!
//! A request for a URL that is already in flight joins that download: at
//! most one download per URL runs at a time. The locator that started the
//! download has its chunks streamed as they arrive. A joiner with the same
//! locator reads that same stream. A joiner with another locator for the
//! same URL gets, when the download ends, the whole body as one chunk and
//! then the same completion.
use vstd::prelude::*;
use crate::bytes::copy_bytes;
use crate::mpris::{contains_text, texts, Event, Metadata};
use crate::table::Table;
use crate::text::{has_prefix, same_text, starts_with};

verus! {

/// Secure locators under this prefix name images of the one provider whose
/// redirect is taken as a shortcut.
pub const SHORTCUT_PREFIX: &'static str = "https://open.spotify.com/image";

/// The same, over plain `http`.
pub const PLAIN_SHORTCUT_PREFIX: &'static str = "http://open.spotify.com/image";

/// Scheme and host of a secure shortcut locator, which are replaced.
pub const SHORTCUT_ORIGIN: &'static str = "https://open.spotify.com";

/// Scheme and host of a plain shortcut locator, which are replaced.
pub const PLAIN_SHORTCUT_ORIGIN: &'static str = "http://open.spotify.com";

/// What replaces them.
pub const SHORTCUT_TARGET: &'static str = "https://i.scdn.co";

/// Why a request for cover art was not planned.
#[derive(Debug, Clone, Copy, PartialEq, Eq, Structural)]
pub enum FetchError {
    /// The track names no art locator.
    MissingLocator,
    /// The locator is not an `http` or `https` URL.
    UnsupportedScheme,
}

/// The URL that the art of `loc` is fetched from and cached under.
pub open spec fn resolve(loc: Seq<char>) -> Option<Seq<char>> {
    if has_prefix(loc, SHORTCUT_PREFIX@) {
        Some(SHORTCUT_TARGET@ + loc.skip(SHORTCUT_ORIGIN@.len() as int))
    } else if has_prefix(loc, PLAIN_SHORTCUT_PREFIX@) {
        Some(SHORTCUT_TARGET@ + loc.skip(PLAIN_SHORTCUT_ORIGIN@.len() as int))
    } else if has_prefix(loc, "http://"@) || has_prefix(loc, "https://"@) {
        Some(loc)
    } else {
        None
    }
}

fn rewrite_origin(loc: &str, origin: &str) -> (r: String)
    requires
        origin@.len() <= loc@.len(),
    ensures
        r@ == SHORTCUT_TARGET@ + loc@.skip(origin@.len() as int),
{
    let n = loc.unicode_len();
    let rest = loc.substring_char(origin.unicode_len(), n);
    assert(rest@ =~= loc@.skip(origin@.len() as int));
    String::from_str(SHORTCUT_TARGET).concat(rest)
}

/// Resolves a locator to the URL its art is fetched from.
pub fn resolve_locator(loc: &str) -> (r: Result<String, FetchError>)
    ensures
        match resolve(loc@) {
            Some(url) => r matches Ok(s) && s@ == url,
            None => r == Err::<String, FetchError>(FetchError::UnsupportedScheme),
        },
{
    proof {
        reveal_strlit("https://open.spotify.com/image");
        reveal_strlit("https://open.spotify.com");
        reveal_strlit("http://open.spotify.com/image");
        reveal_strlit("http://open.spotify.com");
    }
    if starts_with(loc, SHORTCUT_PREFIX) {
        Ok(rewrite_origin(loc, SHORTCUT_ORIGIN))
    } else if starts_with(loc, PLAIN_SHORTCUT_PREFIX) {
        Ok(rewrite_origin(loc, PLAIN_SHORTCUT_ORIGIN))
    } else if starts_with(loc, "http://") || starts_with(loc, "https://") {
        Ok(String::from_str(loc))
    } else {
        Err(FetchError::UnsupportedScheme)
    }
}

/// A shortcut locator, host `open.spotify.com` and path `/image/<id>`,
/// resolves to `https://i.scdn.co/image/<id>` over either scheme.
pub proof fn lemma_shortcut_rewrite(id: Seq<char>)
    ensures
        resolve("https://open.spotify.com/image/"@ + id) == Some("https://i.scdn.co/image/"@ + id),
        resolve("http://open.spotify.com/image/"@ + id) == Some("https://i.scdn.co/image/"@ + id),
{
    reveal_strlit("https://open.spotify.com/image/");
    reveal_strlit("https://open.spotify.com/image");
    reveal_strlit("https://open.spotify.com");
    reveal_strlit("http://open.spotify.com/image/");
    reveal_strlit("http://open.spotify.com/image");
    reveal_strlit("http://open.spotify.com");
    reveal_strlit("https://i.scdn.co/image/");
    reveal_strlit("https://i.scdn.co");
    let secure = "https://open.spotify.com/image/"@ + id;
    assert(secure.subrange(0, SHORTCUT_PREFIX@.len() as int) =~= SHORTCUT_PREFIX@);
    assert(SHORTCUT_TARGET@ + secure.skip(SHORTCUT_ORIGIN@.len() as int) =~= "https://i.scdn.co/image/"@
        + id);
    let plain = "http://open.spotify.com/image/"@ + id;
    assert(plain[4] != SHORTCUT_PREFIX@[4]);
    assert(plain.subrange(0, PLAIN_SHORTCUT_PREFIX@.len() as int) =~= PLAIN_SHORTCUT_PREFIX@);
    assert(SHORTCUT_TARGET@ + plain.skip(PLAIN_SHORTCUT_ORIGIN@.len() as int)
        =~= "https://i.scdn.co/image/"@ + id);
}

/// Any other `http` or `https` locator resolves to itself.
pub proof fn lemma_web_locator_unchanged(loc: Seq<char>)
    requires
        has_prefix(loc, "http://"@) || has_prefix(loc, "https://"@),
        !has_prefix(loc, SHORTCUT_PREFIX@),
        !has_prefix(loc, PLAIN_SHORTCUT_PREFIX@),
    ensures
        resolve(loc) == Some(loc),
{
}

/// What an event says about cover art.
pub enum ArtNote {
    Chunk(Seq<char>, Seq<u8>),
    Complete(Seq<char>, bool),
    Other,
}

/// What `e` says about cover art.
pub open spec fn note(e: Event) -> ArtNote {
    match e {
        Event::ArtChunk(loc, b) => ArtNote::Chunk(loc@, b@),
        Event::ArtComplete(loc, ok) => ArtNote::Complete(loc@, ok),
        _ => ArtNote::Other,
    }
}

/// What a run of events says about cover art.
pub open spec fn notes(evs: Seq<Event>) -> Seq<ArtNote> {
    evs.map_values(|e: Event| note(e))
}

/// The locators waiting on one download.
pub struct InFlight {
    /// The locator whose request started the download; its chunks stream.
    pub starter: Seq<char>,
    /// Other locators that joined it, each once, in order of arrival.
    pub others: Seq<Seq<char>>,
}

/// Whether `loc` already waits on the download.
pub open spec fn waits_for(w: InFlight, loc: Seq<char>) -> bool {
    w.starter == loc || w.others.contains(loc)
}

/// The cache and the downloads in flight, as values.
pub struct FetcherModel {
    /// Complete bodies by URL.
    pub cache: Map<Seq<char>, Seq<u8>>,
    /// Downloads that run, by URL, with the locators waiting on each.
    pub pending: Map<Seq<char>, InFlight>,
}

/// What a request for a locator comes to.
pub enum Step {
    Rejected(FetchError),
    /// Served from the cache: one chunk with the whole body, then success,
    /// both naming this locator.
    Serve(Seq<char>, Seq<u8>),
    /// Joins the download of this URL that runs.
    Join(Seq<char>),
    /// Starts a download of this URL.
    Start(Seq<char>),
}

/// What a request for `loc` comes to in state `st`.
pub open spec fn request_step(st: FetcherModel, loc: Seq<char>) -> Step {
    match resolve(loc) {
        None => Step::Rejected(FetchError::UnsupportedScheme),
        Some(url) => if st.cache.contains_key(url) {
            Step::Serve(loc, st.cache[url])
        } else if st.pending.contains_key(url) {
            Step::Join(url)
        } else {
            Step::Start(url)
        },
    }
}

/// The state after a request for `loc`: a new download records its
/// starter; a joiner with a locator not yet waiting is added.
pub open spec fn after_request(st: FetcherModel, loc: Seq<char>) -> FetcherModel {
    match request_step(st, loc) {
        Step::Start(url) => FetcherModel {
            cache: st.cache,
            pending: st.pending.insert(url, InFlight { starter: loc, others: Seq::empty() }),
        },
        Step::Join(url) => if waits_for(st.pending[url], loc) {
            st
        } else {
            FetcherModel {
                cache: st.cache,
                pending: st.pending.insert(
                    url,
                    InFlight {
                        starter: st.pending[url].starter,
                        others: st.pending[url].others.push(loc),
                    },
                ),
            }
        },
        _ => st,
    }
}

/// How a download ends for one waiting locator. A streamed locator has had
/// its chunks; any other gets the whole body first.
pub open spec fn completion(loc: Seq<char>, body: Option<Seq<u8>>, streamed: bool) -> Seq<ArtNote> {
    match body {
        Some(b) => if streamed {
            seq![ArtNote::Complete(loc, true)]
        } else {
            seq![ArtNote::Chunk(loc, b), ArtNote::Complete(loc, true)]
        },
        None => seq![ArtNote::Complete(loc, false)],
    }
}

/// How a download ends for joiners, in order.
pub open spec fn completions(others: Seq<Seq<char>>, body: Option<Seq<u8>>) -> Seq<ArtNote>
    decreases others.len(),
{
    if others.len() == 0 {
        Seq::empty()
    } else {
        completions(others.drop_last(), body) + completion(others.last(), body, false)
    }
}

/// What the end of the download of `url` reports: its completion for every
/// waiting locator; nothing where no download of it runs.
pub open spec fn finish_notes(st: FetcherModel, url: Seq<char>, body: Option<Seq<u8>>) -> Seq<
    ArtNote,
> {
    if st.pending.contains_key(url) {
        completion(st.pending[url].starter, body, true) + completions(st.pending[url].others, body)
    } else {
        Seq::empty()
    }
}

/// The state after the download of `url` ended with `body` (nothing on
/// failure): it is no longer in flight, and a body of a download in flight
/// enters the cache.
pub open spec fn after_finish(st: FetcherModel, url: Seq<char>, body: Option<Seq<u8>>) -> FetcherModel {
    FetcherModel {
        cache: match body {
            Some(b) => if st.pending.contains_key(url) {
                st.cache.insert(url, b)
            } else {
                st.cache
            },
            None => st.cache,
        },
        pending: st.pending.remove(url),
    }
}

/// The bytes of an optional buffer.
pub open spec fn opt_bytes(o: Option<Vec<u8>>) -> Option<Seq<u8>> {
    match o {
        Some(b) => Some(b@),
        None => None,
    }
}

/// A request for a locator whose URL is cached is served from the cache: one
/// chunk with the whole cached body, then success, both naming the locator.
/// It starts no download and changes nothing.
pub proof fn lemma_cached_request_served(st: FetcherModel, loc: Seq<char>)
    requires
        resolve(loc) is Some,
        st.cache.contains_key(resolve(loc)->0),
    ensures
        request_step(st, loc) == Step::Serve(loc, st.cache[resolve(loc)->0]),
        after_request(st, loc) == st,
{
}

/// The state after a run of requests, none of whose downloads has finished.
pub open spec fn after_requests(st: FetcherModel, locs: Seq<Seq<char>>) -> FetcherModel
    decreases locs.len(),
{
    if locs.len() == 0 {
        st
    } else {
        after_request(after_requests(st, locs.drop_last()), locs.last())
    }
}

/// How many requests of a run start a download of `url`.
pub open spec fn downloads_started(st: FetcherModel, locs: Seq<Seq<char>>, url: Seq<char>) -> nat
    decreases locs.len(),
{
    if locs.len() == 0 {
        0
    } else {
        downloads_started(st, locs.drop_last(), url) + if request_step(
            after_requests(st, locs.drop_last()),
            locs.last(),
        ) == Step::Start(url) {
            1nat
        } else {
            0nat
        }
    }
}

proof fn lemma_requests_keep(st: FetcherModel, locs: Seq<Seq<char>>, url: Seq<char>)
    ensures
        after_requests(st, locs).cache == st.cache,
        st.pending.dom().subset_of(after_requests(st, locs).pending.dom()),
        downloads_started(st, locs, url) <= 1,
        downloads_started(st, locs, url) == 1 ==> after_requests(st, locs).pending.contains_key(
            url,
        ),
        (st.cache.contains_key(url) || st.pending.contains_key(url)) ==> downloads_started(
            st,
            locs,
            url,
        ) == 0,
    decreases locs.len(),
{
    if locs.len() > 0 {
        lemma_requests_keep(st, locs.drop_last(), url);
    }
}

/// However many requests arrive while no download finishes, each URL is
/// downloaded at most once, and not at all where it is cached or already in
/// flight.
pub proof fn lemma_one_download_per_url(st: FetcherModel, locs: Seq<Seq<char>>, url: Seq<char>)
    ensures
        downloads_started(st, locs, url) <= 1,
        (st.cache.contains_key(url) || st.pending.contains_key(url)) ==> downloads_started(
            st,
            locs,
            url,
        ) == 0,
{
    lemma_requests_keep(st, locs, url);
}

/// A request that joins a download leaves that download's starter as it was
/// and its own locator waiting on it, so the end of the download reports to
/// it.
pub proof fn lemma_joiner_waits(st: FetcherModel, loc: Seq<char>)
    requires
        request_step(st, loc) is Join,
    ensures
        after_request(st, loc).pending.contains_key(resolve(loc)->0),
        after_request(st, loc).pending[resolve(loc)->0].starter == st.pending[resolve(
            loc,
        )->0].starter,
        waits_for(after_request(st, loc).pending[resolve(loc)->0], loc),
        after_request(st, loc).cache == st.cache,
{
    let url = resolve(loc)->0;
    if !waits_for(st.pending[url], loc) {
        assert(st.pending[url].others.push(loc).last() == loc);
        assert(st.pending[url].others.push(loc).contains(loc));
    }
}

/// Once a download that a request started has finished with a body, a
/// repeat request for the same locator is served from the cache with that
/// body.
pub proof fn lemma_repeat_request_hits_cache(st: FetcherModel, loc: Seq<char>, body: Seq<u8>)
    requires
        request_step(st, loc) is Start,
    ensures
        request_step(after_finish(after_request(st, loc), resolve(loc)->0, Some(body)), loc)
            == Step::Serve(loc, body),
        finish_notes(after_request(st, loc), resolve(loc)->0, Some(body)) == seq![
            ArtNote::Complete(loc, true),
        ],
        finish_notes(after_request(st, loc), resolve(loc)->0, None) == seq![
            ArtNote::Complete(loc, false),
        ],
{
    let url = resolve(loc)->0;
    assert(completions(Seq::<Seq<char>>::empty(), Some(body)) == Seq::<ArtNote>::empty());
    assert(completions(Seq::<Seq<char>>::empty(), None) == Seq::<ArtNote>::empty());
    assert(seq![ArtNote::Complete(loc, true)] + Seq::<ArtNote>::empty() =~= seq![
        ArtNote::Complete(loc, true),
    ]);
    assert(seq![ArtNote::Complete(loc, false)] + Seq::<ArtNote>::empty() =~= seq![
        ArtNote::Complete(loc, false),
    ]);
}

/// The cache takes a URL's body once: after a download of it has finished,
/// a further completion for it leaves the cache as it is and reports
/// nothing.
pub proof fn lemma_cache_filled_once(
    st: FetcherModel,
    url: Seq<char>,
    first: Option<Seq<u8>>,
    second: Option<Seq<u8>>,
)
    ensures
        after_finish(after_finish(st, url, first), url, second).cache == after_finish(
            st,
            url,
            first,
        ).cache,
        finish_notes(after_finish(st, url, first), url, second) == Seq::<ArtNote>::empty(),
{
}

/// What to do about a request for cover art.
#[derive(Debug)]
pub enum FetchPlan {
    /// Send these events; no download.
    Cached(Vec<Event>),
    /// A download of this URL already runs; its end reports to this request.
    Joined(String),
    /// Download the URL (first) for the locator (second), whose chunks the
    /// download streams.
    Download(String, String),
}

/// `r` is what `step` says for a request for `loc`.
pub open spec fn plan_is(r: Result<FetchPlan, FetchError>, step: Step, loc: Seq<char>) -> bool {
    match step {
        Step::Rejected(e) => r == Err::<FetchPlan, FetchError>(e),
        Step::Serve(l, body) => r matches Ok(FetchPlan::Cached(evs)) && notes(evs@) == seq![
            ArtNote::Chunk(l, body),
            ArtNote::Complete(l, true),
        ],
        Step::Join(url) => r matches Ok(FetchPlan::Joined(k)) && k@ == url,
        Step::Start(url) => r matches Ok(FetchPlan::Download(k, l)) && k@ == url && l@ == loc,
    }
}

/// The art locator of a track.
pub open spec fn art_locator(data: Metadata) -> Option<Seq<char>> {
    match data.art {
        Some(s) => Some(s@),
        None => None,
    }
}

/// Plans cover-art fetches for tracks.
pub trait FetcherExt {
    /// The cache and the fetches in flight.
    spec fn model(&self) -> FetcherModel;

    /// Plans the fetch of the art of `data`.
    fn fetch(&mut self, data: &Metadata) -> (r: Result<FetchPlan, FetchError>)
        ensures
            match art_locator(*data) {
                None => r == Err::<FetchPlan, FetchError>(FetchError::MissingLocator)
                    && final(self).model() == old(self).model(),
                Some(loc) => plan_is(r, request_step(old(self).model(), loc), loc)
                    && final(self).model() == after_request(old(self).model(), loc),
            },
    ;
}

/// The locators waiting on one download.
struct Waiters {
    starter: String,
    others: Vec<String>,
}

spec fn waiters_model(w: Waiters) -> InFlight {
    InFlight { starter: w.starter@, others: texts(w.others@) }
}

/// The cover-art cache and the downloads in flight.
pub struct Fetcher {
    cache: Table<Vec<u8>>,
    pending: Table<Waiters>,
}

impl Fetcher {
    /// The cache and the downloads in flight, as values.
    pub closed spec fn view_model(&self) -> FetcherModel {
        FetcherModel {
            cache: Map::new(
                |k: Seq<char>| self.cache.find(k) is Some,
                |k: Seq<char>| self.cache.find(k)->0@,
            ),
            pending: Map::new(
                |k: Seq<char>| self.pending.find(k) is Some,
                |k: Seq<char>| waiters_model(self.pending.find(k)->0),
            ),
        }
    }

    /// An empty cache with nothing in flight.
    pub fn new() -> (r: Fetcher)
        ensures
            r.view_model().cache == Map::<Seq<char>, Seq<u8>>::empty(),
            r.view_model().pending == Map::<Seq<char>, InFlight>::empty(),
    {
        let r = Fetcher { cache: Table::new(), pending: Table::new() };
        assert(r.view_model().cache =~= Map::<Seq<char>, Seq<u8>>::empty());
        assert(r.view_model().pending =~= Map::<Seq<char>, InFlight>::empty());
        r
    }

    /// Plans the fetch of the art that `loc` locates.
    pub fn request(&mut self, loc: &str) -> (r: Result<FetchPlan, FetchError>)
        ensures
            plan_is(r, request_step(old(self).view_model(), loc@), loc@),
            final(self).view_model() == after_request(old(self).view_model(), loc@),
    {
        let url = match resolve_locator(loc) {
            Ok(url) => url,
            Err(e) => return Err(e),
        };
        match self.cache.get(url.as_str()) {
            Some(body) => {
                let mut evs: Vec<Event> = Vec::new();
                evs.push(Event::ArtChunk(String::from_str(loc), copy_bytes(body.as_slice())));
                evs.push(Event::ArtComplete(String::from_str(loc), true));
                assert(notes(evs@) =~= seq![
                    ArtNote::Chunk(loc@, body@),
                    ArtNote::Complete(loc@, true),
                ]);
                return Ok(FetchPlan::Cached(evs));
            },
            None => {},
        }
        let ghost before = self.view_model();
        let ghost old_table = self.pending;
        let waiting = self.pending.take(url.as_str());
        let ghost mid_table = self.pending;
        let (w, joined) = match waiting {
            Some(w) => {
                let mut w = w;
                let ghost w0 = waiters_model(w);
                assert(old_table.find(url@) == Some(w));
                assert(w0 == before.pending[url@]);
                let me = String::from_str(loc);
                if !same_text(w.starter.as_str(), loc) && !contains_text(&w.others, &me) {
                    let ghost others = w.others@;
                    w.others.push(me);
                    assert(texts(w.others@) =~= texts(others).push(loc@));
                } else {
                    assert(waiters_model(w) == w0);
                    assert(before.pending.insert(url@, w0) =~= before.pending);
                }
                (w, true)
            },
            None => (Waiters { starter: String::from_str(loc), others: Vec::new() }, false),
        };
        let ghost wm = waiters_model(w);
        self.pending.insert(url.clone(), w);
        proof {
            assert forall|k: Seq<char>| k != url@ implies #[trigger] self.pending.find(k)
                == old_table.find(k) by {
                assert(self.pending.find(k) == mid_table.find(k));
            }
            assert(self.pending.find(url@) == Some(w));
            assert(self.view_model().pending =~= before.pending.insert(url@, wm));
            assert(self.view_model().cache =~= before.cache);
            if !joined {
                assert(texts(Seq::<String>::empty()) =~= Seq::<Seq<char>>::empty());
            }
        }
        if joined {
            Ok(FetchPlan::Joined(url))
        } else {
            Ok(FetchPlan::Download(url, String::from_str(loc)))
        }
    }

    /// Records that the download of `url` ended with `body` (nothing on
    /// failure), and gives the completions to send to every locator that
    /// waited on it.
    pub fn finish(&mut self, url: &String, body: Option<Vec<u8>>) -> (r: Vec<Event>)
        ensures
            final(self).view_model() == after_finish(old(self).view_model(), url@, opt_bytes(body)),
            notes(r@) == finish_notes(old(self).view_model(), url@, opt_bytes(body)),
    {
        let ghost before = self.view_model();
        let ghost bv = opt_bytes(body);
        let ghost old_table = self.pending;
        let waiting = self.pending.take(url.as_str());
        proof {
            assert(self.view_model().pending =~= before.pending.remove(url@));
        }
        let mut evs: Vec<Event> = Vec::new();
        match waiting {
            None => {
                assert(notes(evs@) =~= Seq::<ArtNote>::empty());
            },
            Some(w) => {
                let Waiters { starter, others } = w;
                let ghost st = starter@;
                let ghost os = texts(others@);
                assert(before.pending[url@] == InFlight { starter: st, others: os });
                let ok = body.is_some();
                evs.push(Event::ArtComplete(starter, ok));
                assert(notes(evs@) =~= completion(st, bv, true));
                let mut i: usize = 0;
                assert(os.take(0) =~= Seq::<Seq<char>>::empty());
                assert(completion(st, bv, true) + completions(os.take(0), bv) =~= completion(
                    st,
                    bv,
                    true,
                ));
                while i < others.len()
                    invariant
                        i <= others@.len(),
                        os == texts(others@),
                        bv == opt_bytes(body),
                        notes(evs@) == completion(st, bv, true) + completions(os.take(i as int), bv),
                    decreases others@.len() - i,
                {
                    let ghost prev = evs@;
                    assert(os.take(i + 1).drop_last() =~= os.take(i as int));
                    assert(os.take(i + 1).last() == others@[i as int]@);
                    match &body {
                        Some(b) => {
                            evs.push(Event::ArtChunk(others[i].clone(), copy_bytes(b.as_slice())));
                            evs.push(Event::ArtComplete(others[i].clone(), true));
                        },
                        None => {
                            evs.push(Event::ArtComplete(others[i].clone(), false));
                        },
                    }
                    assert(notes(evs@) =~= notes(prev) + completion(others@[i as int]@, bv, false));
                    i = i + 1;
                }
                assert(os.take(i as int) =~= os);
                match body {
                    Some(b) => {
                        self.cache.insert(url.clone(), b);
                    },
                    None => {},
                }
            },
        }
        assert(self.view_model().cache =~= after_finish(before, url@, bv).cache);
        assert(self.view_model().pending =~= after_finish(before, url@, bv).pending);
        evs
    }
}

impl FetcherExt for Fetcher {
    open spec fn model(&self) -> FetcherModel {
        self.view_model()
    }

    fn fetch(&mut self, data: &Metadata) -> (r: Result<FetchPlan, FetchError>) {
        match &data.art {
            Some(loc) => self.request(loc.as_str()),
            None => Err(FetchError::MissingLocator),
        }
    }
}

} // verus!
