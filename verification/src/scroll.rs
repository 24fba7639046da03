use vstd::prelude::*;

verus! {

/// Scroll position over the message history.  Whether an upward scroll
/// moves the offset up or down is fixed at construction.
pub struct Scrolling {
    /// Offset of scroll
    pub offset: usize,
    /// If the scrolling is currently inverted
    pub inverted: bool,
}

/// The offset after one upward scroll step: a no-op at the origin,
/// otherwise one step whose direction depends on the inversion flag.
pub open spec fn up_step(offset: int, inverted: bool) -> int {
    if offset > 0 {
        if inverted {
            offset - 1
        } else {
            offset + 1
        }
    } else {
        offset
    }
}

/// The offset after one downward scroll step: the mirror image of
/// `up_step`.
pub open spec fn down_step(offset: int, inverted: bool) -> int {
    if offset > 0 {
        if inverted {
            offset + 1
        } else {
            offset - 1
        }
    } else {
        offset
    }
}

impl Scrolling {
    pub fn new(inverted: bool) -> (s: Self)
        ensures
            s.offset == 0,
            s.inverted == inverted,
    {
        Self { offset: 0, inverted }
    }

    pub fn up(&mut self)
        requires
            !old(self).inverted && old(self).offset > 0 ==> old(self).offset < usize::MAX,
        ensures
            final(self).offset as int == up_step(old(self).offset as int, old(self).inverted),
            final(self).inverted == old(self).inverted,
    {
        if self.offset > 0 {
            if self.inverted {
                self.offset -= 1;
            } else {
                self.offset += 1;
            }
        }
    }

    pub fn down(&mut self)
        requires
            old(self).inverted && old(self).offset > 0 ==> old(self).offset < usize::MAX,
        ensures
            final(self).offset as int == down_step(old(self).offset as int, old(self).inverted),
            final(self).inverted == old(self).inverted,
    {
        if self.offset > 0 {
            if self.inverted {
                self.offset += 1;
            } else {
                self.offset -= 1;
            }
        }
    }

    /// Jumps are deliberately unchecked against the history length; the
    /// caller bounds them.
    pub fn jump_to(&mut self, index: usize)
        ensures
            final(self).offset == index,
            final(self).inverted == old(self).inverted,
    {
        self.offset = index;
    }

    pub fn get_offset(&self) -> (r: usize)
        ensures
            r == self.offset,
    {
        self.offset
    }
}

/// An upward step followed by a downward step restores the offset, for
/// either inversion.  The one starting point left out is offset 1 with
/// inversion: the upward step reaches the origin, where the downward
/// step holds still.
pub proof fn lemma_scroll_round_trip(offset: int, inverted: bool)
    requires
        offset >= 0,
        inverted ==> offset != 1,
    ensures
        down_step(up_step(offset, inverted), inverted) == offset,
{
}

} // verus!
