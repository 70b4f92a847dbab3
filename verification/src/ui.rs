//! The state of the tabbed view: which match is in focus, and how far the
//! scorecard of each match is scrolled.

use vstd::prelude::*;

verus! {

/// The scroll entries that are left after removing, one after the other, the
/// entries at the positions `removed`. Each position is taken in the sequence
/// as the removals before it have left it.
pub open spec fn without_positions(entries: Seq<(u16, u16)>, removed: Seq<usize>) -> Seq<(u16, u16)>
    decreases removed.len(),
{
    if removed.len() == 0 {
        entries
    } else {
        without_positions(entries, removed.drop_last()).remove(removed.last() as int)
    }
}

/// Whether each of the positions `removed` lies within a sequence that had
/// `len` entries before the first removal.
pub open spec fn positions_in_range(len: nat, removed: Seq<usize>) -> bool {
    forall|k: int| 0 <= k < removed.len() ==> (#[trigger] removed[k]) + k < len
}

/// Removing in-range positions one by one shortens the entries by one each.
pub proof fn lemma_without_positions_len(entries: Seq<(u16, u16)>, removed: Seq<usize>)
    requires
        positions_in_range(entries.len(), removed),
    ensures
        without_positions(entries, removed).len() == entries.len() - removed.len(),
    decreases removed.len(),
{
    if removed.len() > 0 {
        let before = removed.drop_last();
        assert forall|k: int| 0 <= k < before.len() implies (#[trigger] before[k]) + k
            < entries.len() by {
            assert(before[k] == removed[k]);
        }
        lemma_without_positions_len(entries, before);
    }
}

/// Stores the UI state, that is the current tab and the scroll state of each
/// scorecard.
pub struct UiState {
    /// Selected tab
    pub focused_tab: usize,
    /// Current scroll value and greatest scroll value of each tab
    pub scrd_scroll: Vec<(u16, u16)>,
}

impl UiState {
    /// A state with `num_tabs` tabs, the first one in focus and none of them
    /// scrolled.
    pub fn new(num_tabs: usize) -> (state: UiState)
        ensures
            state.focused_tab == 0,
            state.scrd_scroll@ == Seq::new(num_tabs as nat, |i: int| (0u16, 0u16)),
    {
        let mut scrd_scroll: Vec<(u16, u16)> = Vec::new();
        let mut i: usize = 0;
        while i < num_tabs
            invariant
                i <= num_tabs,
                scrd_scroll@ == Seq::new(i as nat, |k: int| (0u16, 0u16)),
            decreases num_tabs - i,
        {
            scrd_scroll.push((0, 0));
            i += 1;
        }
        UiState { focused_tab: 0, scrd_scroll }
    }

    /// Moves the focus `value` tabs to the right, unless the last tab or one
    /// beyond it is in focus already.
    pub fn add_focused_tab(&mut self, value: usize)
        requires
            old(self).scrd_scroll@.len() > 0,
        ensures
            final(self).scrd_scroll == old(self).scrd_scroll,
            final(self).focused_tab == if old(self).focused_tab < old(self).scrd_scroll@.len() - 1 {
                if old(self).focused_tab + value > usize::MAX {
                    usize::MAX
                } else {
                    (old(self).focused_tab + value) as usize
                }
            } else {
                old(self).focused_tab
            },
    {
        if self.focused_tab < self.scrd_scroll.len() - 1 {
            self.focused_tab = self.focused_tab.saturating_add(value);
        }
    }

    /// Moves the focus `value` tabs to the left, stopping at the first tab.
    pub fn sub_focused_tab(&mut self, value: usize)
        ensures
            final(self).scrd_scroll == old(self).scrd_scroll,
            final(self).focused_tab == if old(self).focused_tab >= value {
                (old(self).focused_tab - value) as usize
            } else {
                0
            },
    {
        self.focused_tab = self.focused_tab.saturating_sub(value);
    }

    /// Scrolls the scorecard in focus down by `value` lines, unless it is
    /// within two lines of its greatest scroll value already.
    pub fn add_scrd_scroll(&mut self, value: u16)
        requires
            old(self).focused_tab < old(self).scrd_scroll@.len(),
            old(self).scrd_scroll@[old(self).focused_tab as int].1 >= 2,
        ensures
            final(self).focused_tab == old(self).focused_tab,
            final(self).scrd_scroll@ == old(self).scrd_scroll@.update(
                old(self).focused_tab as int,
                (
                    if old(self).current_scroll() < old(self).scroll_limit() - 2 {
                        if old(self).current_scroll() + value > u16::MAX {
                            u16::MAX
                        } else {
                            (old(self).current_scroll() + value) as u16
                        }
                    } else {
                        old(self).current_scroll()
                    },
                    old(self).scroll_limit(),
                ),
            ),
    {
        let (current, limit) = self.scrd_scroll[self.focused_tab];
        if current < limit - 2 {
            self.scrd_scroll.set(self.focused_tab, (current.saturating_add(value), limit));
        }
        assert(self.scrd_scroll@ =~= old(self).scrd_scroll@.update(
            self.focused_tab as int,
            self.scrd_scroll@[self.focused_tab as int],
        ));
    }

    /// Scrolls the scorecard in focus up by `value` lines, stopping at the top.
    pub fn sub_scrd_scroll(&mut self, value: u16)
        requires
            old(self).focused_tab < old(self).scrd_scroll@.len(),
        ensures
            final(self).focused_tab == old(self).focused_tab,
            final(self).scrd_scroll@ == old(self).scrd_scroll@.update(
                old(self).focused_tab as int,
                (
                    if old(self).current_scroll() >= value {
                        (old(self).current_scroll() - value) as u16
                    } else {
                        0
                    },
                    old(self).scroll_limit(),
                ),
            ),
    {
        let (current, limit) = self.scrd_scroll[self.focused_tab];
        self.scrd_scroll.set(self.focused_tab, (current.saturating_sub(value), limit));
    }

    /// The scroll value of the tab in focus.
    pub open spec fn current_scroll(&self) -> u16 {
        self.scrd_scroll@[self.focused_tab as int].0
    }

    /// The greatest scroll value of the tab in focus.
    pub open spec fn scroll_limit(&self) -> u16 {
        self.scrd_scroll@[self.focused_tab as int].1
    }

    /// The scroll value of the tab in focus.
    pub fn current_scroll_value(&self) -> (value: u16)
        requires
            self.focused_tab < self.scrd_scroll@.len(),
        ensures
            value == self.current_scroll(),
    {
        self.scrd_scroll[self.focused_tab].0
    }

    /// Sets the greatest scroll value of the tab in focus.
    pub fn update_scroll_max_length(&mut self, value: u16)
        requires
            old(self).focused_tab < old(self).scrd_scroll@.len(),
        ensures
            final(self).focused_tab == old(self).focused_tab,
            final(self).scrd_scroll@ == old(self).scrd_scroll@.update(
                old(self).focused_tab as int,
                (old(self).current_scroll(), value),
            ),
    {
        let (current, _) = self.scrd_scroll[self.focused_tab];
        self.scrd_scroll.set(self.focused_tab, (current, value));
    }

    /// Drops the scroll entries of the matches that are not live any more,
    /// one position after the other.
    pub fn update_on_tick(&mut self, invalid_idx: &[usize])
        requires
            positions_in_range(old(self).scrd_scroll@.len(), invalid_idx@),
        ensures
            final(self).focused_tab == old(self).focused_tab,
            final(self).scrd_scroll@ == without_positions(old(self).scrd_scroll@, invalid_idx@),
    {
        let mut k: usize = 0;
        while k < invalid_idx.len()
            invariant
                k <= invalid_idx@.len(),
                positions_in_range(old(self).scrd_scroll@.len(), invalid_idx@),
                self.focused_tab == old(self).focused_tab,
                self.scrd_scroll@ == without_positions(
                    old(self).scrd_scroll@,
                    invalid_idx@.take(k as int),
                ),
            decreases invalid_idx@.len() - k,
        {
            proof {
                let done = invalid_idx@.take(k as int);
                assert forall|j: int| 0 <= j < done.len() implies (#[trigger] done[j]) + j < old(
                    self,
                ).scrd_scroll@.len() by {
                    assert(done[j] == invalid_idx@[j]);
                }
                lemma_without_positions_len(old(self).scrd_scroll@, done);
                assert(invalid_idx@.take(k + 1).drop_last() =~= done);
            }
            self.scrd_scroll.remove(invalid_idx[k]);
            k += 1;
        }
        assert(invalid_idx@.take(k as int) =~= invalid_idx@);
    }
}

} // verus!
