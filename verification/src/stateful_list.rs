//! The list shown on screen: an ordered snapshot of lines, a cursor, and a
//! set of selected rows. All mutators clamp rather than fail: an out-of-range
//! request moves the cursor to the nearest valid position, and every
//! operation is a no-op on an empty list.

use vstd::prelude::*;

verus! {

/// Mathematical snapshot of the list state.
pub ghost struct ListView {
    pub items: Seq<Seq<char>>,
    pub cursor: Option<int>,
    pub selected: Set<int>,
}

impl ListView {
    /// The cursor exists exactly when there are items, stays in bounds, and
    /// only existing rows are selected.
    pub open spec fn wf(self) -> bool {
        &&& (self.items.len() == 0 <==> self.cursor is None)
        &&& (self.cursor matches Some(c) ==> 0 <= c < self.items.len())
        &&& (forall|i: int| self.selected.contains(i) ==> 0 <= i < self.items.len())
    }
}

/// The line under the cursor, if any.
pub open spec fn spec_current_line(v: ListView) -> Option<Seq<char>> {
    match v.cursor {
        Some(c) => Some(v.items[c]),
        None => None,
    }
}

/// Cursor moved down by `steps`, clamped to the last row.
pub open spec fn spec_down(v: ListView, steps: nat) -> ListView {
    match v.cursor {
        Some(c) => ListView {
            cursor: Some(if c + steps < v.items.len() { c + steps } else { v.items.len() - 1 }),
            ..v
        },
        None => v,
    }
}

/// Cursor moved up by `steps`, clamped to the first row.
pub open spec fn spec_up(v: ListView, steps: nat) -> ListView {
    match v.cursor {
        Some(c) => ListView { cursor: Some(if c - steps >= 0 { c - steps } else { 0 }), ..v },
        None => v,
    }
}

/// Cursor on the first row.
pub open spec fn spec_first(v: ListView) -> ListView {
    match v.cursor {
        Some(c) => ListView { cursor: Some(0), ..v },
        None => v,
    }
}

/// Cursor on the last row.
pub open spec fn spec_last(v: ListView) -> ListView {
    match v.cursor {
        Some(c) => ListView { cursor: Some(v.items.len() - 1), ..v },
        None => v,
    }
}

/// The cursor's row added to the selection.
pub open spec fn spec_select(v: ListView) -> ListView {
    match v.cursor {
        Some(c) => ListView { selected: v.selected.insert(c), ..v },
        None => v,
    }
}

/// The cursor's row removed from the selection.
pub open spec fn spec_unselect(v: ListView) -> ListView {
    match v.cursor {
        Some(c) => ListView { selected: v.selected.remove(c), ..v },
        None => v,
    }
}

/// The cursor's row added to the selection if absent, removed if present.
pub open spec fn spec_select_toggle(v: ListView) -> ListView {
    match v.cursor {
        Some(c) => ListView {
            selected: if v.selected.contains(c) {
                v.selected.remove(c)
            } else {
                v.selected.insert(c)
            },
            ..v
        },
        None => v,
    }
}

/// Every row selected.
pub open spec fn spec_select_all(v: ListView) -> ListView {
    ListView { selected: Set::new(|i: int| 0 <= i < v.items.len()), ..v }
}

/// No row selected.
pub open spec fn spec_unselect_all(v: ListView) -> ListView {
    ListView { selected: Set::empty(), ..v }
}

/// A new snapshot installed: the cursor starts at the first row if it was
/// undefined, otherwise it keeps its index clamped to the new bounds; the
/// selection is cleared, since old indices would point at unrelated rows.
pub open spec fn spec_set_lines(v: ListView, lines: Seq<Seq<char>>) -> ListView {
    ListView {
        items: lines,
        cursor: if lines.len() == 0 {
            None
        } else {
            match v.cursor {
                Some(c) => Some(if c < lines.len() { c } else { lines.len() - 1 }),
                None => Some(0),
            }
        },
        selected: Set::empty(),
    }
}

/// The ordered lines of the most recent snapshot, the cursor into them, and
/// the selected rows (one flag per row).
pub struct StatefulList {
    items: Vec<String>,
    cursor: Option<usize>,
    selected: Vec<bool>,
}

impl View for StatefulList {
    type V = ListView;

    closed spec fn view(&self) -> ListView {
        ListView {
            items: self.items.deep_view(),
            cursor: match self.cursor {
                Some(c) => Some(c as int),
                None => None,
            },
            selected: Set::new(
                |i: int| 0 <= i < self.selected.len() && self.selected[i],
            ),
        }
    }
}

impl StatefulList {
    /// One selection flag per row, and the cursor invariants of `ListView`.
    pub closed spec fn wf(&self) -> bool {
        &&& self.selected.len() == self.items.len()
        &&& (match self.cursor {
            Some(c) => c < self.items.len(),
            None => self.items.len() == 0,
        })
    }

    pub proof fn lemma_wf_view(&self)
        requires
            self.wf(),
        ensures
            self@.wf(),
    {
    }

    pub fn new() -> (s: StatefulList)
        ensures
            s.wf(),
            s@.items =~= Seq::<Seq<char>>::empty(),
            s@.cursor is None,
            s@.selected =~= Set::<int>::empty(),
    {
        StatefulList { items: Vec::new(), cursor: None, selected: Vec::new() }
    }

    pub fn down(&mut self, steps: usize)
        requires
            old(self).wf(),
        ensures
            final(self).wf(),
            final(self)@ == spec_down(old(self)@, steps as nat),
    {
        match self.cursor {
            Some(c) => {
                let last = self.items.len() - 1;
                let c2 = if steps > last - c { last } else { c + steps };
                self.cursor = Some(c2);
                proof {
                    assert(self@ =~= spec_down(old(self)@, steps as nat));
                }
            },
            None => {
                proof {
                    assert(self@ =~= spec_down(old(self)@, steps as nat));
                }
            },
        }
    }

    pub fn up(&mut self, steps: usize)
        requires
            old(self).wf(),
        ensures
            final(self).wf(),
            final(self)@ == spec_up(old(self)@, steps as nat),
    {
        match self.cursor {
            Some(c) => {
                let c2 = if steps > c { 0 } else { c - steps };
                self.cursor = Some(c2);
                proof {
                    assert(self@ =~= spec_up(old(self)@, steps as nat));
                }
            },
            None => {
                proof {
                    assert(self@ =~= spec_up(old(self)@, steps as nat));
                }
            },
        }
    }

    pub fn first(&mut self)
        requires
            old(self).wf(),
        ensures
            final(self).wf(),
            final(self)@ == spec_first(old(self)@),
    {
        match self.cursor {
            Some(_) => {
                self.cursor = Some(0);
                proof {
                    assert(self@ =~= spec_first(old(self)@));
                }
            },
            None => {
                proof {
                    assert(self@ =~= spec_first(old(self)@));
                }
            },
        }
    }

    pub fn last(&mut self)
        requires
            old(self).wf(),
        ensures
            final(self).wf(),
            final(self)@ == spec_last(old(self)@),
    {
        match self.cursor {
            Some(_) => {
                self.cursor = Some(self.items.len() - 1);
                proof {
                    assert(self@ =~= spec_last(old(self)@));
                }
            },
            None => {
                proof {
                    assert(self@ =~= spec_last(old(self)@));
                }
            },
        }
    }

    pub fn select(&mut self)
        requires
            old(self).wf(),
        ensures
            final(self).wf(),
            final(self)@ == spec_select(old(self)@),
    {
        match self.cursor {
            Some(c) => {
                self.selected.set(c, true);
                proof {
                    assert(self@.selected =~= old(self)@.selected.insert(c as int));
                    assert(self@ =~= spec_select(old(self)@));
                }
            },
            None => {
                proof {
                    assert(self@ =~= spec_select(old(self)@));
                }
            },
        }
    }

    pub fn unselect(&mut self)
        requires
            old(self).wf(),
        ensures
            final(self).wf(),
            final(self)@ == spec_unselect(old(self)@),
    {
        match self.cursor {
            Some(c) => {
                self.selected.set(c, false);
                proof {
                    assert(self@.selected =~= old(self)@.selected.remove(c as int));
                    assert(self@ =~= spec_unselect(old(self)@));
                }
            },
            None => {
                proof {
                    assert(self@ =~= spec_unselect(old(self)@));
                }
            },
        }
    }

    pub fn select_toggle(&mut self)
        requires
            old(self).wf(),
        ensures
            final(self).wf(),
            final(self)@ == spec_select_toggle(old(self)@),
    {
        match self.cursor {
            Some(c) => {
                let cur = self.selected[c];
                self.selected.set(c, !cur);
                proof {
                    if cur {
                        assert(self@.selected =~= old(self)@.selected.remove(c as int));
                    } else {
                        assert(self@.selected =~= old(self)@.selected.insert(c as int));
                    }
                    assert(self@ =~= spec_select_toggle(old(self)@));
                }
            },
            None => {
                proof {
                    assert(self@ =~= spec_select_toggle(old(self)@));
                }
            },
        }
    }

    pub fn select_all(&mut self)
        requires
            old(self).wf(),
        ensures
            final(self).wf(),
            final(self)@ == spec_select_all(old(self)@),
    {
        let n = self.selected.len();
        let mut flags: Vec<bool> = Vec::new();
        let mut i: usize = 0;
        while i < n
            invariant
                i <= n,
                flags.len() == i,
                forall|k: int| 0 <= k < i ==> flags[k],
            decreases n - i,
        {
            flags.push(true);
            i += 1;
        }
        self.selected = flags;
        proof {
            assert(self@.selected =~= spec_select_all(old(self)@).selected);
            assert(self@ =~= spec_select_all(old(self)@));
        }
    }

    pub fn unselect_all(&mut self)
        requires
            old(self).wf(),
        ensures
            final(self).wf(),
            final(self)@ == spec_unselect_all(old(self)@),
    {
        let n = self.selected.len();
        let mut flags: Vec<bool> = Vec::new();
        let mut i: usize = 0;
        while i < n
            invariant
                i <= n,
                flags.len() == i,
                forall|k: int| 0 <= k < i ==> !flags[k],
            decreases n - i,
        {
            flags.push(false);
            i += 1;
        }
        self.selected = flags;
        proof {
            assert(self@.selected =~= Set::<int>::empty());
            assert(self@ =~= spec_unselect_all(old(self)@));
        }
    }

    pub fn set_lines(&mut self, lines: Vec<String>)
        requires
            old(self).wf(),
        ensures
            final(self).wf(),
            final(self)@ == spec_set_lines(old(self)@, lines.deep_view()),
    {
        let n = lines.len();
        let mut flags: Vec<bool> = Vec::new();
        let mut i: usize = 0;
        while i < n
            invariant
                i <= n,
                flags.len() == i,
                forall|k: int| 0 <= k < i ==> !flags[k],
            decreases n - i,
        {
            flags.push(false);
            i += 1;
        }
        self.cursor = if n == 0 {
            None
        } else {
            match self.cursor {
                Some(c) => Some(if c < n { c } else { n - 1 }),
                None => Some(0),
            }
        };
        self.items = lines;
        self.selected = flags;
        proof {
            assert(self@.selected =~= Set::<int>::empty());
            assert(self@ =~= spec_set_lines(old(self)@, self.items.deep_view()));
        }
    }

    /// The lines of the current snapshot, for rendering.
    pub fn lines(&self) -> (r: &Vec<String>)
        ensures
            r.deep_view() == self@.items,
    {
        &self.items
    }

    /// The cursor's row, if the list is non-empty.
    pub fn cursor(&self) -> (r: Option<usize>)
        ensures
            self@.cursor == match r {
                Some(c) => Some(c as int),
                None => None::<int>,
            },
    {
        self.cursor
    }

    /// Whether row `i` is selected.
    pub fn is_selected(&self, i: usize) -> (r: bool)
        ensures
            r == self@.selected.contains(i as int),
    {
        i < self.selected.len() && self.selected[i]
    }

    pub fn get_selected_line(&self) -> (r: Option<String>)
        requires
            self.wf(),
        ensures
            r.deep_view() == spec_current_line(self@),
    {
        match self.cursor {
            Some(c) => Some(self.items[c].clone()),
            None => None,
        }
    }
}

/// Moving the cursor keeps it inside `[0, len-1]` on a non-empty list and
/// leaves it undefined on an empty one; since each mutator also preserves
/// well-formedness, this holds after any sequence of calls.
pub proof fn lemma_cursor_stays_in_range(v: ListView, steps: nat)
    requires
        v.wf(),
    ensures
        spec_down(v, steps).wf(),
        spec_up(v, steps).wf(),
        spec_first(v).wf(),
        spec_last(v).wf(),
        v.items.len() > 0 ==> (spec_down(v, steps).cursor matches Some(c) ==> 0 <= c
            < v.items.len()),
        v.items.len() > 0 ==> spec_down(v, steps).cursor is Some,
        v.items.len() > 0 ==> spec_up(v, steps).cursor is Some,
        v.items.len() == 0 ==> spec_down(v, steps).cursor is None,
        v.items.len() == 0 ==> spec_up(v, steps).cursor is None,
{
}

/// Selecting all rows and then unselecting all rows leaves the selection
/// empty, whatever was selected before; the items and cursor are untouched.
pub proof fn lemma_select_all_then_unselect_all(v: ListView)
    ensures
        spec_unselect_all(spec_select_all(v)).selected =~= Set::<int>::empty(),
        spec_unselect_all(spec_select_all(v)).items == v.items,
        spec_unselect_all(spec_select_all(v)).cursor == v.cursor,
{
}

/// Toggling the selection of the cursor's row twice, with no snapshot
/// replacement in between, restores the original selection.
pub proof fn lemma_select_toggle_twice(v: ListView)
    requires
        v.wf(),
    ensures
        spec_select_toggle(spec_select_toggle(v)).selected =~= v.selected,
        spec_select_toggle(spec_select_toggle(v)).items == v.items,
        spec_select_toggle(spec_select_toggle(v)).cursor == v.cursor,
{
}

} // verus!
