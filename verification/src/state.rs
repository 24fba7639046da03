use vstd::prelude::*;

verus! {

/// The exclusive UI context: it decides which component receives key
/// events.  Exactly one mode is active at a time, and transitions are
/// plain overwrites of the stored value.
#[derive(Clone, Copy, Debug, PartialEq, Eq, Structural)]
pub enum State {
    Normal,
    Insert,
    Help,
    ChannelSwitch,
    MessageSearch,
}

impl State {
    /// The modes that take free text input.
    pub open spec fn insert_like(self) -> bool {
        match self {
            State::Insert | State::ChannelSwitch | State::MessageSearch => true,
            _ => false,
        }
    }

    /// The mode's own display name.
    pub open spec fn display_seq(self) -> Seq<char> {
        match self {
            State::Normal => "Normal"@,
            State::Insert => "Insert"@,
            State::Help => "Help"@,
            State::ChannelSwitch => "Channel"@,
            State::MessageSearch => "Search"@,
        }
    }

    pub fn in_insert_mode(&self) -> (r: bool)
        ensures
            r == self.insert_like(),
    {
        match self {
            State::Insert | State::ChannelSwitch | State::MessageSearch => true,
            _ => false,
        }
    }

    /// The mode's display name as an owned string.
    pub fn display_name(&self) -> (r: String)
        ensures
            r@ == self.display_seq(),
    {
        match self {
            State::Normal => "Normal".to_owned(),
            State::Insert => "Insert".to_owned(),
            State::Help => "Help".to_owned(),
            State::ChannelSwitch => "Channel".to_owned(),
            State::MessageSearch => "Search".to_owned(),
        }
    }

    /// What general category the state can be identified with: the
    /// shared label for the insert-like modes, the mode's own name
    /// otherwise.
    pub fn category(&self) -> (r: String)
        ensures
            self.insert_like() ==> r@ == "Insert modes"@,
            !self.insert_like() ==> r@ == self.display_seq(),
    {
        if self.in_insert_mode() {
            "Insert modes".to_owned()
        } else {
            self.display_name()
        }
    }
}

} // verus!
