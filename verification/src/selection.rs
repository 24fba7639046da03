use vstd::prelude::*;

verus! {

/// Cursor over whichever list is currently authoritative: at most one
/// selected row, or none.
pub struct SelectionIndex {
    pub selected: Option<usize>,
}

/// The cursor position as a mathematical value.
pub open spec fn sel_view(s: Option<usize>) -> Option<int> {
    match s {
        Some(i) => Some(i as int),
        None => None,
    }
}

/// Where the cursor stands after `next` over a list of length `n`: a
/// no-op on an empty list, the first row from nowhere, otherwise one
/// step forward, saturating at the last row.
pub open spec fn next_step(sel: Option<int>, n: int) -> Option<int> {
    if n <= 0 {
        sel
    } else {
        match sel {
            None => Some(0),
            Some(i) => Some(if i + 1 < n { i + 1 } else { n - 1 }),
        }
    }
}

/// Where the cursor stands after `previous` over a list of length `n`:
/// a no-op on an empty list, the first row from nowhere, otherwise one
/// step back, saturating at the first row.
pub open spec fn previous_step(sel: Option<int>, n: int) -> Option<int> {
    if n <= 0 {
        sel
    } else {
        match sel {
            None => Some(0),
            Some(i) => Some(if i >= 1 { i - 1 } else { 0 }),
        }
    }
}

/// A cursor position that is valid for a list of length `n`.
pub open spec fn sel_in_bounds(sel: Option<int>, n: int) -> bool {
    match sel {
        Some(i) => 0 <= i < n,
        None => true,
    }
}

impl SelectionIndex {
    pub fn new() -> (s: Self)
        ensures
            s.selected is None,
    {
        SelectionIndex { selected: None }
    }

    pub fn next(&mut self, n: usize)
        ensures
            sel_view(final(self).selected) == next_step(sel_view(old(self).selected), n as int),
    {
        if n == 0 {
            return ;
        }
        let j: usize = match self.selected {
            None => 0,
            Some(i) => if i >= n - 1 {
                n - 1
            } else {
                i + 1
            },
        };
        self.selected = Some(j);
    }

    pub fn previous(&mut self, n: usize)
        ensures
            sel_view(final(self).selected) == previous_step(sel_view(old(self).selected), n as int),
    {
        if n == 0 {
            return ;
        }
        let j: usize = match self.selected {
            None => 0,
            Some(i) => if i >= 1 {
                i - 1
            } else {
                0
            },
        };
        self.selected = Some(j);
    }

    pub fn unselect(&mut self)
        ensures
            final(self).selected is None,
    {
        self.selected = None;
    }

    /// Called after a filter edit that produced a nonempty visible set:
    /// keeps a highlighted row on screen by selecting the first one.
    pub fn select_first_if_nonempty(&mut self, n: usize)
        ensures
            n > 0 ==> final(self).selected == Some(0usize),
            n == 0 ==> final(self).selected == old(self).selected,
    {
        if n > 0 {
            self.selected = Some(0);
        }
    }
}

/// The cursor after a whole run of `next` and `previous` calls over a
/// list of length `n`: a `true` entry steps forward, a `false` entry
/// steps back.
pub open spec fn run_steps(sel: Option<int>, ops: Seq<bool>, n: int) -> Option<int>
    decreases ops.len(),
{
    if ops.len() == 0 {
        sel
    } else {
        let stepped = if ops[0] {
            next_step(sel, n)
        } else {
            previous_step(sel, n)
        };
        run_steps(stepped, ops.drop_first(), n)
    }
}

/// Any sequence of `next` and `previous` calls keeps the cursor inside
/// the list whenever the list is nonempty, and an empty list never
/// acquires a selection: an unselected cursor over length 0 stays
/// unselected through every such run.
pub proof fn lemma_run_steps_in_bounds(sel: Option<int>, ops: Seq<bool>, n: int)
    requires
        sel_in_bounds(sel, n),
    ensures
        sel_in_bounds(run_steps(sel, ops, n), n),
        n == 0 && sel is None ==> run_steps(sel, ops, n) is None,
    decreases ops.len(),
{
    if ops.len() > 0 {
        let stepped = if ops[0] {
            next_step(sel, n)
        } else {
            previous_step(sel, n)
        };
        assert(sel_in_bounds(stepped, n));
        lemma_run_steps_in_bounds(stepped, ops.drop_first(), n);
    }
}

} // verus!
