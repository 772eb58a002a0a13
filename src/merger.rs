//! The render loop's view of its inputs. Each frame collects every event
//! that is ready, from the windowing system and from the domain channels, in
//! the order they were seen; a frame that finds nothing waits once for the
//! next event instead of spinning.
use vstd::prelude::*;
use crate::mpris::Event;

verus! {

/// Key value of the Escape key.
pub const ESCAPE_KEY: u32 = 0xff1b;

/// What the render loop needs to know of a windowing-system event.
#[derive(Debug, Clone, Copy, PartialEq, Eq, Structural)]
pub enum WindowEvent {
    /// The user asked to close the window.
    CloseRequested,
    /// A key with this key value was pressed.
    KeyPressed(u32),
    /// Any other event; the windowing system handles it itself.
    Other,
}

/// Whether a windowing event asks the loop to end.
pub open spec fn ends_loop(ev: WindowEvent) -> bool {
    ev == WindowEvent::CloseRequested || ev == WindowEvent::KeyPressed(ESCAPE_KEY)
}

/// One entry of a frame's batch.
#[derive(Debug)]
pub enum FrameItem {
    Window(WindowEvent),
    Domain(Event),
}

/// How a frame ends.
#[derive(Debug)]
pub enum FrameOutcome {
    /// Nothing arrived: block once on whichever source produces next.
    Wait,
    /// Present this batch, then start the next frame.
    Deliver(Vec<FrameItem>),
    /// Present this batch, then leave the loop.
    Stop(Vec<FrameItem>),
}

/// The batch of the frame being collected.
pub struct EventMerger {
    batch: Vec<FrameItem>,
    stopping: bool,
}

impl EventMerger {
    /// The items collected so far, in arrival order.
    pub closed spec fn items(&self) -> Seq<FrameItem> {
        self.batch@
    }

    /// Whether the loop is to end after this frame.
    pub closed spec fn stopping(&self) -> bool {
        self.stopping
    }

    /// A merger with nothing collected.
    pub fn new() -> (r: EventMerger)
        ensures
            r.items() == Seq::<FrameItem>::empty(),
            !r.stopping(),
    {
        EventMerger { batch: Vec::new(), stopping: false }
    }

    /// Whether nothing is buffered.
    pub fn is_idle(&self) -> (r: bool)
        ensures
            r == (self.items().len() == 0),
    {
        self.batch.len() == 0
    }

    /// Adds a windowing event; closing the window or pressing Escape ends the
    /// loop after this frame.
    pub fn push_window(&mut self, ev: WindowEvent)
        ensures
            final(self).items() == old(self).items().push(FrameItem::Window(ev)),
            final(self).stopping() == (old(self).stopping() || ends_loop(ev)),
    {
        let ends = match ev {
            WindowEvent::CloseRequested => true,
            WindowEvent::KeyPressed(k) => k == ESCAPE_KEY,
            WindowEvent::Other => false,
        };
        self.batch.push(FrameItem::Window(ev));
        self.stopping = self.stopping || ends;
    }

    /// Adds a domain event.
    pub fn push_domain(&mut self, ev: Event)
        ensures
            final(self).items() == old(self).items().push(FrameItem::Domain(ev)),
            final(self).stopping() == old(self).stopping(),
    {
        self.batch.push(FrameItem::Domain(ev));
    }

    /// Records that a domain channel lost its sender for good, which ends the
    /// loop after this frame.
    pub fn source_closed(&mut self)
        ensures
            final(self).items() == old(self).items(),
            final(self).stopping(),
    {
        self.stopping = true;
    }

    /// Ends the frame: stop if the loop is to end, wait if nothing arrived,
    /// deliver the batch otherwise. The batch leaves the merger.
    pub fn end_frame(&mut self) -> (r: FrameOutcome)
        ensures
            match r {
                FrameOutcome::Stop(b) => old(self).stopping() && b@ == old(self).items(),
                FrameOutcome::Wait => !old(self).stopping() && old(self).items().len() == 0,
                FrameOutcome::Deliver(b) => !old(self).stopping() && old(self).items().len() > 0
                    && b@ == old(self).items(),
            },
            final(self).items() == Seq::<FrameItem>::empty(),
            final(self).stopping() == old(self).stopping(),
    {
        let mut batch: Vec<FrameItem> = Vec::new();
        std::mem::swap(&mut batch, &mut self.batch);
        if self.stopping {
            FrameOutcome::Stop(batch)
        } else if batch.len() == 0 {
            FrameOutcome::Wait
        } else {
            FrameOutcome::Deliver(batch)
        }
    }
}

} // verus!
