//! What the window shows, built from the event stream: the latest track and
//! playback status, and the cover art of the last fetch that succeeded.
//! Art chunks are gathered per source until that source's fetch completes.
use vstd::prelude::*;
use crate::bytes::append_bytes;
use crate::merger::FrameItem;
use crate::mpris::{Event, Metadata, PlaybackStatus};
use crate::table::Table;

verus! {

/// Title shown when no track is known.
pub const NO_TRACK_TITLE: &'static str = "No song playing!";

/// The shown state, as values.
pub struct ScreenModel {
    pub track: Option<Metadata>,
    pub status: Option<PlaybackStatus>,
    /// Art bytes received so far, by source, of fetches not yet complete.
    pub partial: Map<Seq<char>, Seq<u8>>,
    /// The active image: the art of the last fetch that succeeded.
    pub art: Option<Seq<u8>>,
}

/// The bytes received so far from `src`.
pub open spec fn received(partial: Map<Seq<char>, Seq<u8>>, src: Seq<char>) -> Seq<u8> {
    if partial.contains_key(src) {
        partial[src]
    } else {
        Seq::empty()
    }
}

/// The shown state after one event. A track or a status replaces the
/// previous one whole.
pub open spec fn step(st: ScreenModel, ev: Event) -> ScreenModel {
    match ev {
        Event::MetadataChanged(m) => ScreenModel {
            track: Some(m),
            status: st.status,
            partial: st.partial,
            art: st.art,
        },
        Event::PlaybackChanged(s) => ScreenModel {
            track: st.track,
            status: Some(s),
            partial: st.partial,
            art: st.art,
        },
        Event::ArtChunk(src, b) => ScreenModel {
            track: st.track,
            status: st.status,
            partial: st.partial.insert(src@, received(st.partial, src@) + b@),
            art: st.art,
        },
        Event::ArtComplete(src, ok) => ScreenModel {
            track: st.track,
            status: st.status,
            partial: st.partial.remove(src@),
            art: if ok {
                Some(received(st.partial, src@))
            } else {
                st.art
            },
        },
    }
}

/// The shown state after events in order.
pub open spec fn replay(st: ScreenModel, evs: Seq<Event>) -> ScreenModel
    decreases evs.len(),
{
    if evs.len() == 0 {
        st
    } else {
        step(replay(st, evs.drop_last()), evs.last())
    }
}

/// The domain events of a batch, in order.
pub open spec fn domain_events(items: Seq<FrameItem>) -> Seq<Event>
    decreases items.len(),
{
    if items.len() == 0 {
        Seq::empty()
    } else {
        let before = domain_events(items.drop_last());
        match items.last() {
            FrameItem::Domain(ev) => before.push(ev),
            FrameItem::Window(_) => before,
        }
    }
}

/// After any run of events, the track shown is the payload of the most
/// recent track event, whole: fields of earlier tracks never remain.
pub proof fn lemma_latest_track_shown(st: ScreenModel, evs: Seq<Event>, i: int)
    requires
        0 <= i < evs.len(),
        forall|j: int| i < j < evs.len() ==> !(#[trigger] evs[j] is MetadataChanged),
    ensures
        match evs[i] {
            Event::MetadataChanged(m) => replay(st, evs).track == Some(m),
            _ => true,
        },
    decreases evs.len(),
{
    if i < evs.len() - 1 {
        lemma_latest_track_shown(st, evs.drop_last(), i);
        assert(!(evs[evs.len() - 1] is MetadataChanged));
    }
}

/// Whether presenting `item` asks for the art of its track: a track event
/// whose track names an art locator.
pub fn requests_art(item: &FrameItem) -> (r: bool)
    ensures
        r == (*item matches FrameItem::Domain(Event::MetadataChanged(m)) && m.art is Some),
{
    match item {
        FrameItem::Domain(Event::MetadataChanged(m)) => m.art.is_some(),
        _ => false,
    }
}

/// Whether presenting `item` brings a new active image: a successful art
/// completion.
pub fn brings_art(item: &FrameItem) -> (r: bool)
    ensures
        r == (*item matches FrameItem::Domain(Event::ArtComplete(_, ok)) && ok),
{
    match item {
        FrameItem::Domain(Event::ArtComplete(_, ok)) => *ok,
        _ => false,
    }
}

/// The state the window shows.
pub struct NowPlaying {
    track: Option<Metadata>,
    status: Option<PlaybackStatus>,
    partial: Table<Vec<u8>>,
    art: Option<Vec<u8>>,
}

impl NowPlaying {
    /// The shown state, as values.
    pub closed spec fn model(&self) -> ScreenModel {
        ScreenModel {
            track: self.track,
            status: self.status,
            partial: Map::new(
                |k: Seq<char>| self.partial.find(k) is Some,
                |k: Seq<char>| self.partial.find(k)->0@,
            ),
            art: match self.art {
                Some(b) => Some(b@),
                None => None,
            },
        }
    }

    /// Nothing known yet.
    pub fn new() -> (r: NowPlaying)
        ensures
            r.model().track is None,
            r.model().status is None,
            r.model().partial == Map::<Seq<char>, Seq<u8>>::empty(),
            r.model().art is None,
    {
        let r = NowPlaying { track: None, status: None, partial: Table::new(), art: None };
        assert(r.model().partial =~= Map::<Seq<char>, Seq<u8>>::empty());
        r
    }

    fn take_received(&mut self, src: &String) -> (r: Vec<u8>)
        ensures
            r@ == received(old(self).model().partial, src@),
            final(self).model().partial == old(self).model().partial.remove(src@),
            final(self).track == old(self).track,
            final(self).status == old(self).status,
            final(self).art == old(self).art,
    {
        let ghost before = self.model().partial;
        let r = match self.partial.take(src.as_str()) {
            Some(b) => b,
            None => Vec::new(),
        };
        assert(self.model().partial =~= before.remove(src@));
        r
    }

    /// Takes in one event.
    pub fn apply(&mut self, ev: Event)
        ensures
            final(self).model() == step(old(self).model(), ev),
    {
        match ev {
            Event::MetadataChanged(m) => {
                self.track = Some(m);
            },
            Event::PlaybackChanged(s) => {
                self.status = Some(s);
            },
            Event::ArtChunk(src, b) => {
                let ghost before = self.model().partial;
                let ghost key = src@;
                let mut buf = self.take_received(&src);
                append_bytes(&mut buf, b.as_slice());
                let ghost filled = buf@;
                let ghost mid = self.partial;
                let ghost mid_model = self.model().partial;
                self.partial.insert(src, buf);
                assert(filled == received(before, key) + b@);
                assert forall|k: Seq<char>| k != key implies #[trigger] self.partial.find(k) == mid.find(k)
                    && (mid.find(k) is Some) == mid_model.contains_key(k) && (mid.find(k) is Some
                    ==> mid.find(k)->0@ == mid_model[k]) by {}
                assert(self.model().partial =~= before.insert(key, filled));
            },
            Event::ArtComplete(src, ok) => {
                let buf = self.take_received(&src);
                if ok {
                    self.art = Some(buf);
                }
            },
        }
    }

    /// Takes in the domain events of a frame's batch, in order.
    pub fn apply_batch(&mut self, batch: Vec<FrameItem>)
        ensures
            final(self).model() == replay(old(self).model(), domain_events(batch@)),
    {
        let ghost start = self.model();
        let ghost all = batch@;
        let n = batch.len();
        let mut rest = batch;
        let mut i: usize = 0;
        assert(all.take(0) =~= Seq::<FrameItem>::empty());
        assert(all.skip(0) =~= all);
        while rest.len() > 0
            invariant
                i <= all.len(),
                all.len() == n,
                rest@ == all.skip(i as int),
                self.model() == replay(start, domain_events(all.take(i as int))),
            decreases rest@.len(),
        {
            let item = rest.remove(0);
            assert(all.take(i + 1).drop_last() =~= all.take(i as int));
            assert(all.take(i + 1).last() == item);
            assert(rest@ =~= all.skip(i + 1));
            match item {
                FrameItem::Domain(ev) => {
                    self.apply(ev);
                    assert(domain_events(all.take(i + 1)) == domain_events(all.take(i as int)).push(ev));
                    assert(domain_events(all.take(i + 1)).drop_last() =~= domain_events(all.take(i as int)));
                },
                FrameItem::Window(_) => {},
            }
            i = i + 1;
        }
        assert(all.take(i as int) =~= all);
    }

    /// The title to show.
    pub fn title_text(&self) -> (r: String)
        ensures
            r@ == match self.model().track {
                Some(m) => match m.title {
                    Some(t) => t@,
                    None => NO_TRACK_TITLE@,
                },
                None => NO_TRACK_TITLE@,
            },
    {
        match &self.track {
            Some(m) => match &m.title {
                Some(t) => t.clone(),
                None => String::from_str(NO_TRACK_TITLE),
            },
            None => String::from_str(NO_TRACK_TITLE),
        }
    }

    /// The artist to show; empty where none is known.
    pub fn artist_text(&self) -> (r: String)
        ensures
            r@ == match self.model().track {
                Some(m) => match m.artist {
                    Some(t) => t@,
                    None => Seq::<char>::empty(),
                },
                None => Seq::<char>::empty(),
            },
    {
        match &self.track {
            Some(m) => match &m.artist {
                Some(t) => t.clone(),
                None => String::new(),
            },
            None => String::new(),
        }
    }

    /// The album to show; empty where none is known.
    pub fn album_text(&self) -> (r: String)
        ensures
            r@ == match self.model().track {
                Some(m) => match m.album {
                    Some(t) => t@,
                    None => Seq::<char>::empty(),
                },
                None => Seq::<char>::empty(),
            },
    {
        match &self.track {
            Some(m) => match &m.album {
                Some(t) => t.clone(),
                None => String::new(),
            },
            None => String::new(),
        }
    }

    /// The playback status to show; empty where none is known.
    pub fn status_text(&self) -> (r: &'static str)
        ensures
            r@ == match self.model().status {
                Some(PlaybackStatus::Playing) => "Playing"@,
                Some(PlaybackStatus::Paused) => "Paused"@,
                Some(PlaybackStatus::Stopped) => "Stopped"@,
                None => ""@,
            },
    {
        match &self.status {
            Some(s) => s.label(),
            None => "",
        }
    }

    /// The bytes of the active image, if any fetch has succeeded.
    pub fn art(&self) -> (r: Option<&Vec<u8>>)
        ensures
            match r {
                Some(b) => self.model().art == Some(b@),
                None => self.model().art is None,
            },
    {
        self.art.as_ref()
    }
}

} // verus!
