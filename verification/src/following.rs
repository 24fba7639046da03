use vstd::prelude::*;
use fuzzy_matcher::FuzzyMatcher;
use fuzzy_matcher::skim::SkimMatcherV2;
use crate::selection::{SelectionIndex, next_step, previous_step, sel_view};

verus! {

/// A key event as the channel picker understands it.  Anything that is
/// not one of the four navigation keys belongs to the search input.
#[derive(Clone, Copy, Debug, PartialEq, Eq, Structural)]
pub enum Key {
    Esc,
    Enter,
    ScrollUp,
    ScrollDown,
    Other,
}

/// What the widget asks its caller to do after a key event.
#[derive(Debug, PartialEq, Eq)]
pub enum TerminalAction {
    /// Leave the widget and return to the layer beneath it.
    BackOneLayer,
    /// Join the committed, case-folded channel name.
    Commit(String),
    /// Hand the key to the search input, then report the edited text
    /// back through `apply_search_edit`.
    ForwardInput,
}

/// One row for the next draw: the label and the character positions the
/// matcher flagged for emphasis.
#[derive(Debug)]
pub struct RowItem {
    pub label: String,
    pub highlighted: Vec<usize>,
}

/// The positions that the fuzzy matcher flags in `candidate` for
/// `query`, or `None` when the candidate does not match.
pub uninterp spec fn fuzzy_match_of(candidate: Seq<char>, query: Seq<char>) -> Option<Seq<usize>>;

/// Relies on fuzzy_matcher's `SkimMatcherV2::fuzzy_indices` under the
/// default configuration: the score and the matched positions are a
/// function of the two strings alone (the matcher's thread-local
/// buffers are cleared scratch space), and `None` means the candidate
/// does not match the query.
#[verifier::external_body]
fn fuzzy_match(candidate: &str, query: &str) -> (r: Option<Vec<usize>>)
    ensures
        match r {
            Some(v) => fuzzy_match_of(candidate@, query@) == Some(v@),
            None => fuzzy_match_of(candidate@, query@) is None,
        },
{
    SkimMatcherV2::default().fuzzy_indices(candidate, query).map(|(_, indices)| indices)
}

/// The case-folded form of `s`.
pub uninterp spec fn lower_of(s: Seq<char>) -> Seq<char>;

/// Relies on `str::to_lowercase`: the case-folded text depends on the
/// characters alone.
#[verifier::external_body]
fn lowercase(s: &str) -> (r: String)
    ensures
        r@ == lower_of(s@),
{
    s.to_lowercase()
}

/// Whether the matcher keeps `candidate` for `query`: it matched and
/// flagged at least one position.
pub open spec fn matches_query(candidate: Seq<char>, query: Seq<char>) -> bool {
    match fuzzy_match_of(candidate, query) {
        Some(v) => v.len() > 0,
        None => false,
    }
}

/// The emphasized positions of a kept candidate, empty for one the
/// matcher rejected.
pub open spec fn positions_of(candidate: Seq<char>, query: Seq<char>) -> Seq<usize> {
    match fuzzy_match_of(candidate, query) {
        Some(v) => v,
        None => Seq::empty(),
    }
}

/// The views of a sequence of owned labels.
pub open spec fn labels_view(items: Seq<String>) -> Seq<Seq<char>> {
    items.map_values(|s: String| s@)
}

/// The labels that match `query`, kept in their original order: no
/// re-ranking by score.
pub open spec fn filter_matching(items: Seq<Seq<char>>, query: Seq<char>) -> Seq<Seq<char>>
    decreases items.len(),
{
    if items.len() == 0 {
        Seq::empty()
    } else {
        let rest = filter_matching(items.drop_last(), query);
        if matches_query(items.last(), query) {
            rest.push(items.last())
        } else {
            rest
        }
    }
}

/// The cursor after a re-clamp against a list of length `n`: a position
/// past the end of a nonempty list falls back to the last row; over an
/// empty list the (stale) position is kept for the readers' guards.
pub open spec fn reclamp(sel: Option<int>, n: int) -> Option<int> {
    match sel {
        Some(i) => if n > 0 && i >= n {
            Some(n - 1)
        } else {
            sel
        },
        None => None,
    }
}

/// The channel picker: a backing list of broadcaster names, the
/// filtered view for the current search text, and a cursor over
/// whichever of the two is authoritative.
pub struct FollowingWidget {
    /// Every followed broadcaster name, in its original order.
    pub following: Vec<String>,
    /// The filtered view; `None` while the search text is empty.
    pub filtered_following: Option<Vec<String>>,
    /// The cursor over the authoritative list.
    pub state: SelectionIndex,
    /// Whether the widget currently receives key events.
    pub focused: bool,
}

impl FollowingWidget {
    /// The labels that selection and commits index into: the filtered
    /// view when a filter is active, the backing list otherwise.
    pub open spec fn auth_labels(self) -> Seq<Seq<char>> {
        match self.filtered_following {
            Some(v) => labels_view(v@),
            None => labels_view(self.following@),
        }
    }

    pub open spec fn auth_len(self) -> int {
        self.auth_labels().len() as int
    }

    /// The cursor is clamped to the authoritative list whenever that
    /// list is nonempty.  Over an empty view a stale position may
    /// remain, and every reader guards against it.
    pub open spec fn wf(self) -> bool {
        match self.state.selected {
            Some(i) => self.auth_len() == 0 || (i as int) < self.auth_len(),
            None => true,
        }
    }

    /// A fresh, unfocused picker with no filter; the first row starts
    /// selected when there is one.
    pub fn new(following: Vec<String>) -> (w: Self)
        ensures
            w.wf(),
            w.following == following,
            w.filtered_following is None,
            w.focused == false,
            following@.len() > 0 ==> w.state.selected == Some(0usize),
            following@.len() == 0 ==> w.state.selected is None,
    {
        let selected: Option<usize> = if following.len() > 0 {
            Some(0)
        } else {
            None
        };
        FollowingWidget {
            following,
            filtered_following: None,
            state: SelectionIndex { selected },
            focused: false,
        }
    }

    pub fn is_focused(&self) -> (r: bool)
        ensures
            r == self.focused,
    {
        self.focused
    }

    pub fn toggle_focus(&mut self)
        ensures
            final(self).focused == !old(self).focused,
            final(self).following == old(self).following,
            final(self).filtered_following == old(self).filtered_following,
            final(self).state == old(self).state,
    {
        self.focused = !self.focused;
    }

    /// The length of the authoritative list.
    pub fn auth_len_exec(&self) -> (n: usize)
        ensures
            n as int == self.auth_len(),
    {
        match &self.filtered_following {
            Some(v) => v.len(),
            None => self.following.len(),
        }
    }

    /// One cursor step forward over the authoritative list.
    pub fn next(&mut self)
        requires
            old(self).wf(),
        ensures
            final(self).wf(),
            sel_view(final(self).state.selected) == next_step(
                sel_view(old(self).state.selected),
                old(self).auth_len(),
            ),
            final(self).following == old(self).following,
            final(self).filtered_following == old(self).filtered_following,
            final(self).focused == old(self).focused,
    {
        let n = self.auth_len_exec();
        self.state.next(n);
    }

    /// One cursor step back over the authoritative list.
    pub fn previous(&mut self)
        requires
            old(self).wf(),
        ensures
            final(self).wf(),
            sel_view(final(self).state.selected) == previous_step(
                sel_view(old(self).state.selected),
                old(self).auth_len(),
            ),
            final(self).following == old(self).following,
            final(self).filtered_following == old(self).filtered_following,
            final(self).focused == old(self).focused,
    {
        let n = self.auth_len_exec();
        self.state.previous(n);
    }

    /// Re-clamps the cursor against the current authoritative list, as
    /// any change of that list's length demands.
    fn reclamp_selection(&mut self)
        ensures
            final(self).wf(),
            sel_view(final(self).state.selected) == reclamp(
                sel_view(old(self).state.selected),
                old(self).auth_len(),
            ),
            final(self).following == old(self).following,
            final(self).filtered_following == old(self).filtered_following,
            final(self).focused == old(self).focused,
    {
        let n = self.auth_len_exec();
        if let Some(i) = self.state.selected {
            if n > 0 && i >= n {
                self.state.selected = Some(n - 1);
            }
        }
    }

    /// Recomputes the filtered view from the full backing list for the
    /// current search text and hands back the rows for the next draw.
    ///
    /// An empty text means no filtering: the view is dropped and every
    /// backing item is shown in its original order, with nothing
    /// emphasized.  A nonempty text keeps exactly the matching labels,
    /// in backing order, each with the matcher's emphasized positions.
    /// Afterwards the cursor is re-clamped to the recomputed list.
    pub fn refresh_filter(&mut self, current_input: &str) -> (rows: Vec<RowItem>)
        ensures
            final(self).wf(),
            final(self).following == old(self).following,
            final(self).focused == old(self).focused,
            current_input@.len() == 0 ==> final(self).filtered_following is None,
            current_input@.len() == 0 ==> rows@.len() == old(self).following@.len(),
            current_input@.len() == 0 ==> forall|k: int|
                0 <= k < rows@.len() ==> (#[trigger] rows@[k].label)@ == old(self).following@[k]@ && rows@[k].highlighted@.len() == 0,
            current_input@.len() > 0 ==> (final(self).filtered_following matches Some(v)
                && labels_view(v@) == filter_matching(
                labels_view(old(self).following@),
                current_input@,
            )),
            current_input@.len() > 0 ==> rows@.len() == final(self).auth_len(),
            current_input@.len() > 0 ==> forall|k: int|
                0 <= k < rows@.len() ==> (#[trigger] rows@[k].label)@ == final(self).auth_labels()[k] && rows@[k].highlighted@ == positions_of(
                    final(self).auth_labels()[k],
                    current_input@,
                ),
            sel_view(final(self).state.selected) == reclamp(
                sel_view(old(self).state.selected),
                final(self).auth_len(),
            ),
    {
        let ghost q: Seq<char> = current_input@;
        let mut rows: Vec<RowItem> = Vec::new();
        if current_input.is_empty() {
            let mut idx: usize = 0;
            while idx < self.following.len()
                invariant
                    idx <= self.following.len(),
                    rows@.len() == idx,
                    forall|k: int|
                        0 <= k < idx ==> (#[trigger] rows@[k].label)@ == self.following@[k]@
                            && rows@[k].highlighted@.len() == 0,
                decreases self.following.len() - idx,
            {
                let label = self.following[idx].as_str().to_owned();
                rows.push(RowItem { label, highlighted: Vec::new() });
                idx += 1;
            }
            self.filtered_following = None;
        } else {
            let ghost all_labels: Seq<Seq<char>> = labels_view(self.following@);
            let mut matched: Vec<String> = Vec::new();
            let mut idx: usize = 0;
            while idx < self.following.len()
                invariant
                    idx <= self.following.len(),
                    q == current_input@,
                    all_labels == labels_view(self.following@),
                    labels_view(matched@) == filter_matching(all_labels.take(idx as int), q),
                    rows@.len() == matched@.len(),
                    forall|k: int|
                        0 <= k < rows@.len() ==> (#[trigger] rows@[k].label)@ == labels_view(
                            matched@,
                        )[k] && rows@[k].highlighted@ == positions_of(labels_view(matched@)[k], q),
                decreases self.following.len() - idx,
            {
                let ghost pre_matched: Seq<String> = matched@;
                let label = self.following[idx].as_str().to_owned();
                let ghost lv: Seq<char> = label@;
                proof {
                    assert(all_labels[idx as int] == self.following@[idx as int]@);
                    assert(lv == all_labels[idx as int]);
                }
                let matched_indices = fuzzy_match(label.as_str(), current_input);
                match matched_indices {
                    Some(indices) => {
                        if indices.len() > 0 {
                            proof {
                                assert(fuzzy_match_of(lv, q) == Some(indices@));
                                assert(matches_query(lv, q));
                                assert(positions_of(lv, q) == indices@);
                            }
                            let label_copy = label.as_str().to_owned();
                            rows.push(RowItem { label: label_copy, highlighted: indices });
                            matched.push(label);
                            proof {
                                assert(labels_view(matched@) =~= labels_view(pre_matched).push(lv));
                            }
                        } else {
                            proof {
                                assert(!matches_query(lv, q));
                            }
                        }
                    },
                    None => {
                        proof {
                            assert(fuzzy_match_of(lv, q) is None);
                            assert(!matches_query(lv, q));
                        }
                    },
                }
                proof {
                    assert(all_labels.take(idx as int + 1).drop_last() =~= all_labels.take(
                        idx as int,
                    ));
                    assert(all_labels.take(idx as int + 1).last() == all_labels[idx as int]);
                    assert(labels_view(matched@) == filter_matching(
                        all_labels.take(idx as int + 1),
                        q,
                    ));
                }
                idx += 1;
            }
            proof {
                assert(all_labels.take(self.following@.len() as int) =~= all_labels);
            }
            self.filtered_following = Some(matched);
        }
        self.reclamp_selection();
        rows
    }

    pub fn unselect(&mut self)
        ensures
            final(self).wf(),
            final(self).state.selected is None,
            final(self).following == old(self).following,
            final(self).filtered_following == old(self).filtered_following,
            final(self).focused == old(self).focused,
    {
        self.state.unselect();
    }

    /// Runs the recompute after a key was handed to the search input,
    /// then keeps a highlighted row on screen: whenever the filter is
    /// active and its view nonempty, the first matching row is
    /// force-selected.
    pub fn apply_search_edit(&mut self, current_input: &str)
        ensures
            final(self).wf(),
            final(self).following == old(self).following,
            final(self).focused == old(self).focused,
            current_input@.len() == 0 ==> final(self).filtered_following is None,
            current_input@.len() > 0 ==> (final(self).filtered_following matches Some(v)
                && labels_view(v@) == filter_matching(
                labels_view(old(self).following@),
                current_input@,
            )),
            current_input@.len() > 0 && filter_matching(
                labels_view(old(self).following@),
                current_input@,
            ).len() > 0 ==> final(self).state.selected == Some(0usize),
            current_input@.len() > 0 && filter_matching(
                labels_view(old(self).following@),
                current_input@,
            ).len() == 0 ==> final(self).state.selected == old(self).state.selected,
            current_input@.len() == 0 ==> sel_view(final(self).state.selected) == reclamp(
                sel_view(old(self).state.selected),
                old(self).following@.len() as int,
            ),
    {
        let _rows = self.refresh_filter(current_input);
        let mut visible_len: usize = 0;
        let mut filter_active = false;
        match &self.filtered_following {
            Some(v) => {
                filter_active = true;
                visible_len = v.len();
            },
            None => {},
        }
        if filter_active {
            self.state.select_first_if_nonempty(visible_len);
        }
    }

    /// Translates one key event into cursor movement, a commit, or a
    /// request of the caller.
    ///
    /// Escape clears an existing selection, and only without one drops
    /// focus and asks for the layer beneath.  The scroll keys move the
    /// cursor over the authoritative list.  Enter without a selection,
    /// or with a stale one over an empty view, does nothing; otherwise
    /// it resolves the selected row against the authoritative list —
    /// under an active filter that is the filtered view, never the
    /// backing list — case-folds it, drops focus, clears the selection
    /// and asks the caller to commit.  Every other key belongs to the
    /// search input.
    pub fn event(&mut self, key: Key) -> (r: Option<TerminalAction>)
        requires
            old(self).wf(),
        ensures
            final(self).wf(),
            final(self).following == old(self).following,
            final(self).filtered_following == old(self).filtered_following,
            key == Key::Esc && old(self).state.selected is Some ==> r is None && final(self).state.selected is None && final(self).focused == old(self).focused,
            key == Key::Esc && old(self).state.selected is None ==> r == Some(
                TerminalAction::BackOneLayer,
            ) && final(self).focused == !old(self).focused && final(self).state == old(self).state,
            key == Key::ScrollDown ==> r is None && final(self).focused == old(self).focused
                && sel_view(final(self).state.selected) == next_step(
                sel_view(old(self).state.selected),
                old(self).auth_len(),
            ),
            key == Key::ScrollUp ==> r is None && final(self).focused == old(self).focused
                && sel_view(final(self).state.selected) == previous_step(
                sel_view(old(self).state.selected),
                old(self).auth_len(),
            ),
            key == Key::Enter && (old(self).state.selected is None || old(self).auth_len() == 0)
                ==> r is None && final(self).state == old(self).state && final(self).focused == old(self).focused,
            key == Key::Enter && old(self).auth_len() > 0 ==> (old(self).state.selected
                matches Some(i) ==> (i as int) < old(self).auth_len() && (r matches Some(
                TerminalAction::Commit(s),
            ) && s@ == lower_of(old(self).auth_labels()[i as int])) && final(self).focused == !old(self).focused && final(self).state.selected is None),
            key == Key::Other ==> r == Some(TerminalAction::ForwardInput) && final(self).state
                == old(self).state && final(self).focused == old(self).focused,
    {
        match key {
            Key::Esc => {
                if self.state.selected.is_some() {
                    self.unselect();
                    None
                } else {
                    self.toggle_focus();
                    Some(TerminalAction::BackOneLayer)
                }
            },
            Key::ScrollDown => {
                self.next();
                None
            },
            Key::ScrollUp => {
                self.previous();
                None
            },
            Key::Enter => {
                match self.state.selected {
                    None => None,
                    Some(i) => {
                        let n = self.auth_len_exec();
                        if n == 0 {
                            None
                        } else {
                            let label: String = match &self.filtered_following {
                                Some(v) => v[i].as_str().to_owned(),
                                None => self.following[i].as_str().to_owned(),
                            };
                            let folded = lowercase(label.as_str());
                            self.toggle_focus();
                            self.unselect();
                            Some(TerminalAction::Commit(folded))
                        }
                    },
                }
            },
            Key::Other => Some(TerminalAction::ForwardInput),
        }
    }

    /// The numbers behind the title row: the 1-based cursor position
    /// (1 when nothing is selected) and the authoritative count.
    pub fn position_display(&self) -> (r: (usize, usize))
        ensures
            r.1 as int == self.auth_len(),
            self.state.selected is None ==> r.0 == 1,
            self.state.selected matches Some(i) ==> (i < usize::MAX ==> r.0 == i + 1) && (i
                == usize::MAX ==> r.0 == usize::MAX),
    {
        let pos: usize = match self.state.selected {
            None => 1,
            Some(i) => if i < usize::MAX {
                i + 1
            } else {
                usize::MAX
            },
        };
        (pos, self.auth_len_exec())
    }
}

/// Every label that the filter keeps matches the query.
proof fn lemma_filter_all_match(items: Seq<Seq<char>>, query: Seq<char>)
    ensures
        forall|k: int|
            0 <= k < filter_matching(items, query).len() ==> matches_query(
                #[trigger] filter_matching(items, query)[k],
                query,
            ),
    decreases items.len(),
{
    if items.len() > 0 {
        lemma_filter_all_match(items.drop_last(), query);
        let rest = filter_matching(items.drop_last(), query);
        let whole = filter_matching(items, query);
        if matches_query(items.last(), query) {
            assert(whole == rest.push(items.last()));
            assert forall|k: int| 0 <= k < whole.len() implies matches_query(whole[k], query) by {
                if k < rest.len() {
                    assert(whole[k] == rest[k]);
                } else {
                    assert(whole[k] == items.last());
                }
            }
        } else {
            assert(whole == rest);
        }
    }
}

/// Filtering a list whose every label already matches keeps it whole.
proof fn lemma_filter_of_matching_is_identity(items: Seq<Seq<char>>, query: Seq<char>)
    requires
        forall|k: int| 0 <= k < items.len() ==> matches_query(#[trigger] items[k], query),
    ensures
        filter_matching(items, query) == items,
    decreases items.len(),
{
    if items.len() > 0 {
        lemma_filter_of_matching_is_identity(items.drop_last(), query);
        assert(filter_matching(items, query) =~= items);
    } else {
        assert(filter_matching(items, query) =~= items);
    }
}

/// Filtering is idempotent: the visible list, filtered again with the
/// same query, is unchanged — so recomputing the view for an unchanged
/// search text always reproduces the same visible set.
pub proof fn lemma_filter_idempotent(items: Seq<Seq<char>>, query: Seq<char>)
    ensures
        filter_matching(filter_matching(items, query), query) == filter_matching(items, query),
{
    lemma_filter_all_match(items, query);
    lemma_filter_of_matching_is_identity(filter_matching(items, query), query);
}

} // verus!
