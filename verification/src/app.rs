use vstd::prelude::*;
use std::collections::VecDeque;
use crate::scroll::Scrolling;
use crate::state::State;

verus! {

/// Top-level interactive state: the current UI mode, the bounded
/// message history, and the scroll position over it.  The storage,
/// input-line and theme collaborators live with the caller.
pub struct App {
    /// History of recorded messages, oldest first.
    pub messages: VecDeque<String>,
    /// Fixed bound on the history; older entries are evicted first.
    pub capacity: usize,
    /// Which window the terminal is currently focused on.
    pub state: State,
    /// Interactions with scrolling of the application.
    pub scrolling: Scrolling,
}

impl App {
    /// The history never grows past its capacity.
    pub open spec fn wf(self) -> bool {
        self.messages@.len() <= self.capacity
    }

    pub fn new(maximum_messages: usize, start_state: State, inverted_scrolling: bool) -> (app:
        Self)
        ensures
            app.wf(),
            app.messages@ == Seq::<String>::empty(),
            app.capacity == maximum_messages,
            app.state == start_state,
            app.scrolling.offset == 0,
            app.scrolling.inverted == inverted_scrolling,
    {
        App {
            messages: VecDeque::with_capacity(maximum_messages),
            capacity: maximum_messages,
            state: start_state,
            scrolling: Scrolling::new(inverted_scrolling),
        }
    }

    /// Overwrites the current mode; any mode is reachable from any
    /// other.
    pub fn set_state(&mut self, state: State)
        ensures
            final(self).state == state,
            final(self).messages@ == old(self).messages@,
            final(self).capacity == old(self).capacity,
            final(self).scrolling == old(self).scrolling,
    {
        self.state = state;
    }

    /// Records one message.  While the history is full the oldest entry
    /// leaves first; with a zero capacity nothing is ever kept.
    pub fn add_message(&mut self, message: String)
        requires
            old(self).wf(),
        ensures
            final(self).wf(),
            final(self).capacity == old(self).capacity,
            final(self).state == old(self).state,
            final(self).scrolling == old(self).scrolling,
            old(self).capacity == 0 ==> final(self).messages@ == old(self).messages@,
            old(self).capacity > 0 && old(self).messages@.len() < old(self).capacity ==> final(self).messages@ == old(self).messages@.push(message),
            old(self).capacity > 0 && old(self).messages@.len() == old(self).capacity ==> final(self).messages@ == old(self).messages@.drop_first().push(message),
    {
        if self.capacity == 0 {
            return ;
        }
        if self.messages.len() >= self.capacity {
            let _ = self.messages.pop_front();
            proof {
                assert(old(self).messages@.subrange(1, old(self).messages@.len() as int)
                    =~= old(self).messages@.drop_first());
            }
        }
        self.messages.push_back(message);
    }

    /// Empties the history and rewinds the scroll offset with it, so a
    /// cleared history never leaves a stale offset pointing past its
    /// end.  This holds regardless of the prior offset and history
    /// size.
    pub fn clear_messages(&mut self)
        ensures
            final(self).wf(),
            final(self).messages@ == Seq::<String>::empty(),
            final(self).scrolling.offset == 0,
            final(self).scrolling.inverted == old(self).scrolling.inverted,
            final(self).state == old(self).state,
            final(self).capacity == old(self).capacity,
    {
        self.messages.clear();
        self.scrolling.jump_to(0);
    }
}

} // verus!
